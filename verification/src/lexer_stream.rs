//! A stream of tokens that are lexed as the parser asks for them.

use std::ops::Range;
use vstd::prelude::*;
use vstd::string::StringSliceAdditionalSpecFns;
use crate::lexer::Lexer;
use crate::lexical::{
    lemma_next_lexeme_bounds, lexemes, lexemes_from, next_lexeme, spanned_token, tokens_of,
};
use crate::span::Spanned;
use crate::stream::TokenSource;
use crate::token::{Token, TokenView};

verus! {

/// A stream over the tokens of a source text, which lexes each token when
/// it is asked for. Its tokens are those that lexing the whole text gives.
#[derive(Debug)]
pub struct LexerStream<'i> {
    lexer: Lexer<'i>,
    /// How many tokens have been read.
    index: usize,
    /// Where the last token read ends.
    last_end: usize,
}

impl<'i> LexerStream<'i> {
    /// The bytes of the source text.
    pub closed spec fn source(&self) -> Seq<u8> {
        self.lexer.source()
    }

    /// A stream at the first token of `input`.
    pub fn new(input: &'i str) -> (stream: Self)
        ensures
            stream.wf(),
            stream.source() == input.spec_bytes(),
            stream.tokens() == tokens_of(input.spec_bytes()),
            stream.offset() == 0,
    {
        let lexer = Lexer::new(input);
        proof {
            assert(lexemes(lexer.source()).skip(0) =~= lexemes(lexer.source()));
        }
        LexerStream { lexer, index: 0, last_end: 0 }
    }

    /// With the lexer at the token of index `index`, the next lexeme is that
    /// token, or there is none and `index` is the number of tokens.
    proof fn lemma_next(&self)
        requires
            self.wf(),
        ensures
            match next_lexeme(self.source(), self.lexer.offset()) {
                Some(lexeme) => {
                    &&& self.index < lexemes(self.source()).len()
                    &&& lexemes(self.source())[self.index as int] == lexeme
                    &&& self.tokens()[self.index as int] == spanned_token(self.source(), lexeme)
                    &&& lexemes_from(self.source(), lexeme.next) == lexemes(self.source()).skip(
                        self.index + 1,
                    )
                    &&& self.lexer.offset() < lexeme.next <= self.source().len()
                },
                None => self.index == lexemes(self.source()).len(),
            },
    {
        let src = self.source();
        let rest = lexemes_from(src, self.lexer.offset());
        lemma_next_lexeme_bounds(src, self.lexer.offset());
        if let Some(lexeme) = next_lexeme(src, self.lexer.offset()) {
            assert(rest[0] == lexeme);
            assert(rest.skip(1) =~= lexemes_from(src, lexeme.next));
        }
    }
}

impl<'i> TokenSource<'i> for LexerStream<'i> {
    closed spec fn tokens(&self) -> Seq<Spanned<TokenView>> {
        tokens_of(self.lexer.source())
    }

    closed spec fn offset(&self) -> int {
        self.index as int
    }

    closed spec fn wf(&self) -> bool {
        let src = self.lexer.source();
        &&& self.lexer.wf()
        &&& self.index <= lexemes(src).len()
        &&& self.index <= self.lexer.offset()
        &&& lexemes_from(src, self.lexer.offset()) == lexemes(src).skip(self.index as int)
        &&& self.last_end == if self.index > 0 {
            spanned_token(src, lexemes(src)[self.index - 1]).1.end
        } else {
            0
        }
    }

    proof fn lemma_offset_in_bounds(&self) {
    }

    fn checkpoint(&self) -> (checkpoint: Self) {
        LexerStream { lexer: self.lexer.clone(), index: self.index, last_end: self.last_end }
    }

    fn peek_token(&self) -> (token: Option<Spanned<Token<'i>>>) {
        proof {
            self.lemma_next();
        }
        let mut ahead = self.lexer.clone();
        ahead.next()
    }

    fn next_token(&mut self) -> (token: Option<Spanned<Token<'i>>>) {
        proof {
            self.lemma_next();
        }
        let mut ahead = self.lexer.clone();
        match ahead.next() {
            Some(token) => {
                let reached: usize = ahead.position();
                assert(self.index < reached);
                self.lexer = ahead;
                self.index = self.index + 1;
                self.last_end = token.1.end;
                Some(token)
            },
            None => None,
        }
    }

    fn span_here(&self) -> (span: Range<usize>) {
        match self.peek_token() {
            Some(token) => token.1,
            None => Range { start: self.last_end, end: self.last_end },
        }
    }
}

} // verus!
