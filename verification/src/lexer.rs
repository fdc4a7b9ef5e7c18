//! The lexer: from source text to spanned tokens.

use std::ops::Range;
use vstd::prelude::*;
use vstd::string::StringSliceAdditionalSpecFns;
use vstd::utf8::{
    decode_utf8, is_char_boundary, is_continuation_byte, length_of_first_scalar, pop_first_scalar,
    valid_utf8,
};
use crate::lexical::{
    end_from, end_position, ident_at, ident_end, ident_first, ident_rest, is_blank, leading_indent,
    lemma_ident_end, lemma_next_lexeme_bounds, lemma_skip_blanks,
    lemma_skip_separators_after_blanks, lexemes_from, next_lexeme, next_position, separator_at,
    skip_blanks, skip_separators, spanned_token, spanned_tokens, start_position, symbol_at,
    symbol_len, token_at, token_view, tokens_of, BACKSLASH, CARRIAGE_RETURN, CLOSE_PAREN,
    EQUALS_SIGN, GREATER_THAN, HYPHEN, LINE_FEED, OPEN_PAREN, SEMICOLON, SPACE, TAB,
};
use crate::span::Spanned;
use crate::token::{token_views, Symbol, Token};

verus! {

broadcast use vstd::utf8::group_utf8_lib;

/// `winnow::stream::AsChar::is_alpha` as winnow implements it for `char`,
/// which is `char::is_ascii_alphabetic`: true exactly for the 52 ASCII
/// letters. The claim is taken from winnow's source, not proved.
#[verifier::external_body]
fn is_alpha(c: char) -> (alpha: bool)
    ensures
        alpha == (('a' <= c && c <= 'z') || ('A' <= c && c <= 'Z')),
{
    winnow::stream::AsChar::is_alpha(c)
}

/// `winnow::stream::AsChar::is_dec_digit` as winnow implements it for
/// `char`, which is `char::is_ascii_digit`: true exactly for the ten ASCII
/// decimal digits. The claim is taken from winnow's source, not proved.
#[verifier::external_body]
fn is_dec_digit(c: char) -> (digit: bool)
    ensures
        digit == ('0' <= c && c <= '9'),
{
    winnow::stream::AsChar::is_dec_digit(c)
}

/// Whether `c` can start an identifier.
pub fn is_ident_first(c: char) -> (first: bool)
    ensures
        first == ident_first(c),
{
    is_alpha(c) || c == '_'
}

/// Whether `c` can continue an identifier.
pub fn is_ident_rest(c: char) -> (rest: bool)
    ensures
        rest == ident_rest(c),
{
    is_ident_first(c) || is_dec_digit(c)
}

/// In well-formed UTF-8 a character ends with every ASCII byte, so the
/// offset behind one is a character boundary.
proof fn lemma_boundary_after_ascii(bytes: Seq<u8>, index: int)
    requires
        valid_utf8(bytes),
        0 < index <= bytes.len(),
        bytes[index - 1] <= 0x7f,
    ensures
        is_char_boundary(bytes, index),
    decreases bytes.len(),
{
    let first = length_of_first_scalar(bytes);
    let rest = pop_first_scalar(bytes);
    if index > first {
        lemma_boundary_after_ascii(rest, index - first);
    } else {
        assert(is_char_boundary(rest, 0));
    }
}

/// A position in a source text.
#[derive(Clone, Copy, Debug)]
pub struct Cursor<'i> {
    input: &'i str,
    position: usize,
}

impl<'i> Cursor<'i> {
    /// The bytes of the source text.
    pub closed spec fn source(&self) -> Seq<u8> {
        self.input.spec_bytes()
    }

    /// The offset of the next byte to read.
    pub closed spec fn offset(&self) -> int {
        self.position as int
    }

    /// The offset lies within the source.
    pub open spec fn wf(&self) -> bool {
        0 <= self.offset() <= self.source().len()
    }

    /// A cursor at the start of `input`.
    pub fn new(input: &'i str) -> (cursor: Self)
        ensures
            cursor.wf(),
            cursor.source() == input.spec_bytes(),
            cursor.offset() == 0,
    {
        Cursor { input, position: 0 }
    }

    /// The offset of the next byte to read.
    pub fn position(&self) -> (position: usize)
        ensures
            position == self.offset(),
    {
        self.position
    }

    /// The number of bytes of the source.
    pub fn len(&self) -> (len: usize)
        ensures
            len == self.source().len(),
    {
        self.input.as_bytes().len()
    }

    /// Whether the whole source has been read.
    pub fn is_at_end(&self) -> (at_end: bool)
        requires
            self.wf(),
        ensures
            at_end == (self.offset() == self.source().len()),
    {
        self.position == self.len()
    }

    /// The byte at the cursor, if any.
    fn peek(&self) -> (byte: Option<u8>)
        requires
            self.wf(),
        ensures
            byte == if self.offset() < self.source().len() {
                Some(self.source()[self.offset()])
            } else {
                None
            },
    {
        let bytes = self.input.as_bytes();
        if self.position < bytes.len() {
            Some(bytes[self.position])
        } else {
            None
        }
    }

    /// Moves the cursor `count` bytes on.
    fn advance(&mut self, count: usize)
        requires
            old(self).wf(),
            old(self).offset() + count <= old(self).source().len(),
        ensures
            final(self).wf(),
            final(self).source() == old(self).source(),
            final(self).offset() == old(self).offset() + count,
    {
        let len: usize = self.len();
        assert(self.position + count <= len);
        self.position = self.position + count;
    }

    /// The text between `start` and the cursor, which is ASCII throughout.
    fn text_since(&self, start: usize) -> (text: &'i str)
        requires
            self.wf(),
            start < self.offset(),
            forall|i: int| start <= i < self.offset() ==> #[trigger] self.source()[i] <= 0x7f,
        ensures
            text.spec_bytes() == self.source().subrange(start as int, self.offset()),
            text@ == decode_utf8(self.source().subrange(start as int, self.offset())),
    {
        proof {
            lemma_boundary_after_ascii(self.source(), self.offset());
        }
        let (head, _) = self.input.split_at(self.position);
        assert(!is_continuation_byte(head.spec_bytes()[start as int]));
        let (_, text) = head.split_at(start);
        text
    }
}

/// Whether `byte` is horizontal whitespace.
fn is_blank_byte(byte: u8) -> (blank: bool)
    ensures
        blank == is_blank(byte),
{
    byte == SPACE || byte == TAB || byte == CARRIAGE_RETURN
}

/// Moves `input` over horizontal whitespace: spaces, tabs and carriage
/// returns.
fn skip_whitespace(input: &mut Cursor)
    requires
        old(input).wf(),
    ensures
        final(input).wf(),
        final(input).source() == old(input).source(),
        final(input).offset() == skip_blanks(old(input).source(), old(input).offset()),
{
    let ghost src = input.source();
    let ghost start = input.offset();
    loop
        invariant
            input.wf(),
            input.source() == src,
            0 <= input.offset() <= src.len(),
            skip_blanks(src, input.offset()) == skip_blanks(src, start),
        ensures
            input.offset() == skip_blanks(src, start),
        decreases src.len() - input.offset(),
    {
        match input.peek() {
            Some(byte) => {
                if is_blank_byte(byte) {
                    input.advance(1);
                } else {
                    break ;
                }
            },
            None => {
                break ;
            },
        }
    }
}

impl Symbol {
    /// Reads the symbol whose literal text stands at the cursor, and moves
    /// the cursor behind it. Where none stands there, the cursor stays.
    pub fn parse(input: &mut Cursor) -> (symbol: Option<Symbol>)
        requires
            old(input).wf(),
        ensures
            final(input).wf(),
            final(input).source() == old(input).source(),
            symbol == symbol_at(old(input).source(), old(input).offset()),
            final(input).offset() == match symbol {
                Some(symbol) => old(input).offset() + symbol_len(symbol),
                None => old(input).offset(),
            },
    {
        let first: u8 = match input.peek() {
            Some(byte) => byte,
            None => {
                return None;
            },
        };
        if first == BACKSLASH {
            input.advance(1);
            Some(Symbol::Lambda)
        } else if first == HYPHEN {
            let checkpoint = *input;
            input.advance(1);
            match input.peek() {
                Some(second) => {
                    if second == GREATER_THAN {
                        input.advance(1);
                        return Some(Symbol::Arrow);
                    }
                },
                None => {},
            }
            *input = checkpoint;
            None
        } else if first == EQUALS_SIGN {
            input.advance(1);
            Some(Symbol::Define)
        } else if first == OPEN_PAREN {
            input.advance(1);
            Some(Symbol::OpenParen)
        } else if first == CLOSE_PAREN {
            input.advance(1);
            Some(Symbol::CloseParen)
        } else {
            None
        }
    }
}

/// Moves `input` over an identifier, if one starts at the cursor, and says
/// whether one did.
fn take_ident(input: &mut Cursor) -> (taken: bool)
    requires
        old(input).wf(),
    ensures
        final(input).wf(),
        final(input).source() == old(input).source(),
        taken == ident_at(old(input).source(), old(input).offset()),
        final(input).offset() == if taken {
            ident_end(old(input).source(), old(input).offset())
        } else {
            old(input).offset()
        },
{
    let ghost src = input.source();
    let ghost start = input.offset();
    match input.peek() {
        Some(byte) => {
            if !is_ident_first(byte as char) {
                return false;
            }
        },
        None => {
            return false;
        },
    }
    input.advance(1);
    loop
        invariant
            input.wf(),
            input.source() == src,
            0 <= start < input.offset() <= src.len(),
            ident_end(src, input.offset()) == ident_end(src, start),
        ensures
            input.offset() == ident_end(src, start),
        decreases src.len() - input.offset(),
    {
        match input.peek() {
            Some(byte) => {
                if is_ident_rest(byte as char) {
                    input.advance(1);
                } else {
                    break ;
                }
            },
            None => {
                break ;
            },
        }
    }
    true
}

/// Reads the identifier that starts at the cursor, the longest there is, and
/// moves the cursor behind it. Where none starts there, the cursor stays.
pub fn parse_ident<'i>(input: &mut Cursor<'i>) -> (ident: Option<&'i str>)
    requires
        old(input).wf(),
    ensures
        final(input).wf(),
        final(input).source() == old(input).source(),
        match ident {
            Some(text) => {
                &&& ident_at(old(input).source(), old(input).offset())
                &&& final(input).offset() == ident_end(old(input).source(), old(input).offset())
                &&& text.spec_bytes() == old(input).source().subrange(
                    old(input).offset(),
                    final(input).offset(),
                )
                &&& text@ == decode_utf8(text.spec_bytes())
            },
            None => {
                &&& !ident_at(old(input).source(), old(input).offset())
                &&& final(input).offset() == old(input).offset()
            },
        },
{
    let start: usize = input.position();
    if take_ident(input) {
        proof {
            lemma_ident_end(input.source(), start as int);
        }
        Some(input.text_since(start))
    } else {
        None
    }
}

impl<'i> Token<'i> {
    /// Reads the one token that starts at the cursor: a symbol, else an
    /// identifier, else a statement separator. Where none starts there, the
    /// cursor stays.
    pub fn parse(input: &mut Cursor<'i>) -> (token: Option<Token<'i>>)
        requires
            old(input).wf(),
        ensures
            final(input).wf(),
            final(input).source() == old(input).source(),
            match token_at(old(input).source(), old(input).offset()) {
                Some((kind, end)) => {
                    &&& token is Some
                    &&& token.unwrap()@ == token_view(
                        old(input).source(),
                        kind,
                        old(input).offset(),
                        end,
                    )
                    &&& final(input).offset() == end
                },
                None => token is None && final(input).offset() == old(input).offset(),
            },
    {
        if let Some(symbol) = Symbol::parse(input) {
            return Some(Token::Symbol(symbol));
        }
        if let Some(text) = parse_ident(input) {
            return Some(Token::Ident(text));
        }
        match input.peek() {
            Some(byte) => {
                if byte == LINE_FEED || byte == SEMICOLON {
                    input.advance(1);
                    Some(Token::NewLine)
                } else {
                    None
                }
            },
            None => None,
        }
    }
}

/// A lexer over a source text: a forward-only sequence of spanned tokens.
#[derive(Debug)]
pub struct Lexer<'i> {
    remaining: Cursor<'i>,
}

impl<'i> Clone for Lexer<'i> {
    /// A lexer over the same source at the same offset.
    fn clone(&self) -> (cloned: Self)
        ensures
            cloned == *self,
    {
        Lexer { remaining: self.remaining }
    }
}

impl<'i> Lexer<'i> {
    /// The bytes of the source text.
    pub closed spec fn source(&self) -> Seq<u8> {
        self.remaining.source()
    }

    /// The offset from which the next token is sought.
    pub closed spec fn offset(&self) -> int {
        self.remaining.offset()
    }

    /// The offset lies within the source.
    pub open spec fn wf(&self) -> bool {
        0 <= self.offset() <= self.source().len()
    }

    /// A lexer over `input`, set behind its leading spaces and tabs.
    pub fn new(input: &'i str) -> (lexer: Self)
        ensures
            lexer.wf(),
            lexer.source() == input.spec_bytes(),
            lexer.offset() == start_position(input.spec_bytes()),
    {
        let mut remaining = Cursor::new(input);
        let ghost src = remaining.source();
        loop
            invariant
                remaining.wf(),
                remaining.source() == src,
                0 <= remaining.offset() <= src.len(),
                leading_indent(src, remaining.offset()) == leading_indent(src, 0),
            ensures
                remaining.offset() == leading_indent(src, 0),
            decreases src.len() - remaining.offset(),
        {
            match remaining.peek() {
                Some(byte) => {
                    if byte == SPACE || byte == TAB {
                        remaining.advance(1);
                    } else {
                        break ;
                    }
                },
                None => {
                    break ;
                },
            }
        }
        Lexer { remaining }
    }

    /// The offset from which the next token is sought.
    pub fn position(&self) -> (position: usize)
        ensures
            position == self.offset(),
    {
        self.remaining.position()
    }

    /// Whether the whole source has been read. Where `next` has ended the
    /// sequence and this is false, what is left of the source is no token.
    pub fn is_at_end(&self) -> (at_end: bool)
        requires
            self.wf(),
        ensures
            at_end == (self.offset() == self.source().len()),
    {
        self.remaining.is_at_end()
    }

    /// Moves over blanks and statement separators. Where a separator was
    /// among them, the result is one `NewLine` with the span of the first.
    fn eat_whitespace(&mut self) -> (newline: Option<Spanned<Token<'i>>>)
        requires
            old(self).wf(),
        ensures
            final(self).wf(),
            final(self).source() == old(self).source(),
            ({
                let src = old(self).source();
                let start = skip_blanks(src, old(self).offset());
                if separator_at(src, start) {
                    &&& newline == Some(
                        Spanned(Token::NewLine, Range { start: start as usize, end: (start + 1) as usize }),
                    )
                    &&& final(self).offset() == skip_separators(src, start + 1)
                } else {
                    &&& newline is None
                    &&& final(self).offset() == start
                }
            }),
    {
        let ghost src = self.source();
        let ghost start = skip_blanks(src, self.offset());
        let mut first_newline: Option<Spanned<Token<'i>>> = None;
        let len: usize = self.remaining.len();
        proof {
            lemma_skip_blanks(src, self.offset());
        }
        loop
            invariant
                self.wf(),
                self.source() == src,
                src == old(self).source(),
                start == skip_blanks(src, old(self).offset()),
                src.len() == len,
                0 <= start <= src.len(),
                0 <= self.offset() <= src.len(),
                match first_newline {
                    None => skip_blanks(src, self.offset()) == start,
                    Some(newline) => {
                        &&& separator_at(src, start)
                        &&& newline == Spanned(
                            Token::NewLine,
                            Range { start: start as usize, end: (start + 1) as usize },
                        )
                        &&& skip_separators(src, self.offset()) == skip_separators(src, start + 1)
                    },
                },
            decreases src.len() - self.offset(),
        {
            proof {
                lemma_skip_blanks(src, self.offset());
                lemma_skip_separators_after_blanks(src, self.offset());
            }
            skip_whitespace(&mut self.remaining);
            let checkpoint = self.remaining;
            let token_start: usize = self.remaining.position();
            match Token::parse(&mut self.remaining) {
                Some(Token::NewLine) => {
                    if first_newline.is_none() {
                        let token_end: usize = self.remaining.position();
                        first_newline =
                        Some(Spanned(Token::NewLine, Range { start: token_start, end: token_end }));
                    }
                },
                _ => {
                    self.remaining = checkpoint;
                    return first_newline;
                },
            }
        }
    }

    /// The next token of the sequence, or `None` where the sequence ends: at
    /// the end of the source, or at text that starts no token.
    pub fn next(&mut self) -> (token: Option<Spanned<Token<'i>>>)
        requires
            old(self).wf(),
        ensures
            final(self).wf(),
            final(self).source() == old(self).source(),
            final(self).offset() == next_position(old(self).source(), old(self).offset()),
            match next_lexeme(old(self).source(), old(self).offset()) {
                Some(lexeme) => token is Some && token.unwrap()@ == spanned_token(
                    old(self).source(),
                    lexeme,
                ),
                None => token is None,
            },
    {
        if let Some(newline) = self.eat_whitespace() {
            return Some(newline);
        }
        let start: usize = self.remaining.position();
        match Token::parse(&mut self.remaining) {
            Some(token) => {
                let end: usize = self.remaining.position();
                Some(Spanned(token, Range { start, end }))
            },
            None => None,
        }
    }
}

impl<'i> Lexer<'i> {
    /// All the tokens that are left, up to where the sequence ends. The
    /// lexer rests there.
    pub fn collect(&mut self) -> (tokens: Vec<Spanned<Token<'i>>>)
        requires
            old(self).wf(),
        ensures
            final(self).wf(),
            final(self).source() == old(self).source(),
            final(self).offset() == end_from(old(self).source(), old(self).offset()),
            token_views(tokens@) == spanned_tokens(
                old(self).source(),
                lexemes_from(old(self).source(), old(self).offset()),
            ),
    {
        let mut tokens: Vec<Spanned<Token<'i>>> = Vec::new();
        let ghost src = self.source();
        let ghost all = spanned_tokens(src, lexemes_from(src, self.offset()));
        let ghost end = end_from(src, self.offset());
        loop
            invariant_except_break
                token_views(tokens@) + spanned_tokens(src, lexemes_from(src, self.offset()))
                    == all,
                end_from(src, self.offset()) == end,
            invariant
                self.wf(),
                self.source() == src,
            ensures
                token_views(tokens@) == all,
                self.offset() == end,
            decreases src.len() - self.offset(),
        {
            proof {
                lemma_next_lexeme_bounds(src, self.offset());
            }
            match self.next() {
                Some(token) => {
                    tokens.push(token);
                },
                None => {
                    break ;
                },
            }
        }
        tokens
    }
}

/// The lazy sequence of the tokens of `input`: a lexer at its start, to be
/// driven with `next`, or to the end with `collect`, which then gives
/// `tokens_of` the text.
pub fn lex<'i>(input: &'i str) -> (lexer: Lexer<'i>)
    ensures
        lexer.wf(),
        lexer.source() == input.spec_bytes(),
        lexer.offset() == start_position(input.spec_bytes()),
{
    Lexer::new(input)
}

/// Text that starts no token, at the offset `position` of the source.
#[derive(Clone, Copy, Debug, PartialEq, Eq, Structural)]
pub struct LexError {
    pub position: usize,
}

/// The tokens of all of `input`. Where the sequence of tokens ends before
/// the end of the text, that is an error at the offset where it ends.
pub fn lex_entire<'i>(input: &'i str) -> (result: Result<Vec<Spanned<Token<'i>>>, LexError>)
    ensures
        match result {
            Ok(tokens) => {
                &&& end_position(input.spec_bytes()) == input.spec_bytes().len()
                &&& token_views(tokens@) == tokens_of(input.spec_bytes())
            },
            Err(error) => {
                &&& end_position(input.spec_bytes()) < input.spec_bytes().len()
                &&& error.position == end_position(input.spec_bytes())
            },
        },
{
    let mut lexer = Lexer::new(input);
    let tokens = lexer.collect();
    if lexer.is_at_end() {
        Ok(tokens)
    } else {
        Err(LexError { position: lexer.position() })
    }
}

} // verus!
