//! Streams of spanned tokens: what the parser asks of its input, and the
//! stream over tokens held in memory.

use std::ops::Range;
use vstd::prelude::*;
use crate::span::Spanned;
use crate::token::{token_views, Token, TokenView};

verus! {

/// The span at which a parser that stands at `pos` reports a failure: that
/// of the token there, or, behind the last token, the empty span at the
/// end of that token (at offset 0 where there is no token).
pub open spec fn span_at(tokens: Seq<Spanned<TokenView>>, pos: int) -> Range<usize> {
    if 0 <= pos < tokens.len() {
        tokens[pos].1
    } else if tokens.len() > 0 {
        Range { start: tokens.last().1.end, end: tokens.last().1.end }
    } else {
        Range { start: 0, end: 0 }
    }
}

/// A sequence of spanned tokens with a position in it: all that the parser
/// asks of its input.
///
/// The sequence is fixed when the stream is made, whether its tokens are
/// held in memory or read as they are asked for. A checkpoint is a copy of
/// the stream: the parser goes back by putting the copy in the stream's
/// place, so a copy must be cheap to make.
pub trait TokenSource<'i>: Sized {
    /// All the tokens, read or not.
    spec fn tokens(&self) -> Seq<Spanned<TokenView>>;

    /// The index of the next token to read.
    spec fn offset(&self) -> int;

    /// What the stream needs to hold of itself to work.
    spec fn wf(&self) -> bool;

    /// The position of a well-formed stream lies within its tokens.
    proof fn lemma_offset_in_bounds(&self)
        requires
            self.wf(),
        ensures
            0 <= self.offset() <= self.tokens().len(),
    ;

    /// A copy of the stream at its current position, to come back to.
    fn checkpoint(&self) -> (checkpoint: Self)
        requires
            self.wf(),
        ensures
            checkpoint.wf(),
            checkpoint.tokens() == self.tokens(),
            checkpoint.offset() == self.offset(),
    ;

    /// The token at the current position, which stays.
    fn peek_token(&self) -> (token: Option<Spanned<Token<'i>>>)
        requires
            self.wf(),
        ensures
            match token {
                Some(token) => {
                    &&& 0 <= self.offset() < self.tokens().len()
                    &&& token@ == self.tokens()[self.offset()]
                },
                None => self.offset() == self.tokens().len(),
            },
    ;

    /// Reads the token at the current position and moves behind it.
    fn next_token(&mut self) -> (token: Option<Spanned<Token<'i>>>)
        requires
            old(self).wf(),
        ensures
            final(self).wf(),
            final(self).tokens() == old(self).tokens(),
            match token {
                Some(token) => {
                    &&& 0 <= old(self).offset() < old(self).tokens().len()
                    &&& token@ == old(self).tokens()[old(self).offset()]
                    &&& final(self).offset() == old(self).offset() + 1
                },
                None => {
                    &&& old(self).offset() == old(self).tokens().len()
                    &&& final(self).offset() == old(self).offset()
                },
            },
    ;

    /// The span at which a failure at the current position is reported.
    fn span_here(&self) -> (span: Range<usize>)
        requires
            self.wf(),
        ensures
            span == span_at(self.tokens(), self.offset()),
    ;
}

/// The number of tokens of `input` not yet read.
pub open spec fn remaining<'i, S: TokenSource<'i>>(input: &S) -> int {
    input.tokens().len() - input.offset()
}

/// A stream over tokens held in memory.
#[derive(Clone, Copy, Debug)]
pub struct TokenStream<'t, 'i> {
    tokens: &'t [Spanned<Token<'i>>],
    position: usize,
}

impl<'t, 'i> TokenStream<'t, 'i> {
    /// A stream at the start of `tokens`.
    pub fn new(tokens: &'t [Spanned<Token<'i>>]) -> (stream: Self)
        ensures
            stream.wf(),
            stream.tokens() == token_views(tokens@),
            stream.offset() == 0,
    {
        TokenStream { tokens, position: 0 }
    }

    /// The index of the next token to read.
    pub fn position(&self) -> (position: usize)
        ensures
            position == self.offset(),
    {
        self.position
    }

    /// Goes to the token with the index `position`.
    pub fn reset(&mut self, position: usize)
        requires
            position <= old(self).tokens().len(),
        ensures
            final(self).wf(),
            final(self).tokens() == old(self).tokens(),
            final(self).offset() == position,
    {
        self.position = position;
    }

    /// Whether every token has been read.
    pub fn is_at_end(&self) -> (at_end: bool)
        requires
            self.wf(),
        ensures
            at_end == (self.offset() == self.tokens().len()),
    {
        self.position == self.tokens.len()
    }
}

impl<'t, 'i> TokenSource<'i> for TokenStream<'t, 'i> {
    closed spec fn tokens(&self) -> Seq<Spanned<TokenView>> {
        token_views(self.tokens@)
    }

    closed spec fn offset(&self) -> int {
        self.position as int
    }

    closed spec fn wf(&self) -> bool {
        self.position <= self.tokens@.len()
    }

    proof fn lemma_offset_in_bounds(&self) {
    }

    fn checkpoint(&self) -> (checkpoint: Self) {
        *self
    }

    fn peek_token(&self) -> (token: Option<Spanned<Token<'i>>>) {
        if self.position < self.tokens.len() {
            let token = &self.tokens[self.position];
            Some(Spanned(token.0, Range { start: token.1.start, end: token.1.end }))
        } else {
            None
        }
    }

    fn next_token(&mut self) -> (token: Option<Spanned<Token<'i>>>) {
        if self.position < self.tokens.len() {
            let token = self.peek_token();
            self.position = self.position + 1;
            token
        } else {
            None
        }
    }

    fn span_here(&self) -> (span: Range<usize>) {
        let len: usize = self.tokens.len();
        if self.position < len {
            let token = &self.tokens[self.position];
            Range { start: token.1.start, end: token.1.end }
        } else if len > 0 {
            let end: usize = self.tokens[len - 1].1.end;
            Range { start: end, end }
        } else {
            Range { start: 0, end: 0 }
        }
    }
}

} // verus!
