//! The tokenization rules, stated over the bytes of the source text.
//!
//! A position is an offset into the source bytes. Everything here is
//! specification: the executable lexer is proved to follow it.

use std::ops::Range;
use vstd::prelude::*;
use vstd::utf8::decode_utf8;
use crate::span::Spanned;
use crate::token::{Symbol, TokenView};

verus! {

pub const SPACE: u8 = 0x20;

pub const TAB: u8 = 0x09;

pub const CARRIAGE_RETURN: u8 = 0x0d;

pub const LINE_FEED: u8 = 0x0a;

pub const SEMICOLON: u8 = 0x3b;

pub const BACKSLASH: u8 = 0x5c;

pub const HYPHEN: u8 = 0x2d;

pub const GREATER_THAN: u8 = 0x3e;

pub const EQUALS_SIGN: u8 = 0x3d;

pub const OPEN_PAREN: u8 = 0x28;

pub const CLOSE_PAREN: u8 = 0x29;

/// Horizontal whitespace: space, tab and carriage return.
pub open spec fn is_blank(byte: u8) -> bool {
    byte == SPACE || byte == TAB || byte == CARRIAGE_RETURN
}

/// A statement separator: line feed or `;`.
pub open spec fn is_separator(byte: u8) -> bool {
    byte == LINE_FEED || byte == SEMICOLON
}

/// `c` can start an identifier: an ASCII letter or `_`.
pub open spec fn ident_first(c: char) -> bool {
    ('a' <= c && c <= 'z') || ('A' <= c && c <= 'Z') || c == '_'
}

/// `c` can continue an identifier: an ASCII letter, `_` or a decimal digit.
pub open spec fn ident_rest(c: char) -> bool {
    ident_first(c) || ('0' <= c && c <= '9')
}

/// `text` is an identifier: not empty, starts with a letter or `_` and goes
/// on with letters, digits and `_`.
pub open spec fn is_identifier(text: Seq<u8>) -> bool {
    &&& text.len() > 0
    &&& ident_first(text[0] as char)
    &&& forall|i: int| 0 <= i < text.len() ==> ident_rest(#[trigger] text[i] as char)
}

/// The first position at or after `pos` that holds no blank byte, or the end
/// of the source.
pub open spec fn skip_blanks(src: Seq<u8>, pos: int) -> int
    decreases src.len() - pos,
{
    if 0 <= pos < src.len() && is_blank(src[pos]) {
        skip_blanks(src, pos + 1)
    } else {
        pos
    }
}

/// The first position at or after `pos` that holds neither a blank byte nor a
/// separator, or the end of the source.
pub open spec fn skip_separators(src: Seq<u8>, pos: int) -> int
    decreases src.len() - pos,
{
    if 0 <= pos < src.len() && (is_blank(src[pos]) || is_separator(src[pos])) {
        skip_separators(src, pos + 1)
    } else {
        pos
    }
}

/// The first position at or after `pos` that holds no identifier byte, or the
/// end of the source.
pub open spec fn ident_end(src: Seq<u8>, pos: int) -> int
    decreases src.len() - pos,
{
    if 0 <= pos < src.len() && ident_rest(src[pos] as char) {
        ident_end(src, pos + 1)
    } else {
        pos
    }
}

/// Number of bytes of a symbol's literal text.
pub open spec fn symbol_len(symbol: Symbol) -> int {
    match symbol {
        Symbol::Arrow => 2,
        _ => 1,
    }
}

/// The symbol whose literal text stands at `pos`, if any. No symbol's text is
/// a prefix of another's, so at most one can match.
pub open spec fn symbol_at(src: Seq<u8>, pos: int) -> Option<Symbol> {
    if !(0 <= pos < src.len()) {
        None
    } else if src[pos] == BACKSLASH {
        Some(Symbol::Lambda)
    } else if src[pos] == HYPHEN && pos + 1 < src.len() && src[pos + 1] == GREATER_THAN {
        Some(Symbol::Arrow)
    } else if src[pos] == EQUALS_SIGN {
        Some(Symbol::Define)
    } else if src[pos] == OPEN_PAREN {
        Some(Symbol::OpenParen)
    } else if src[pos] == CLOSE_PAREN {
        Some(Symbol::CloseParen)
    } else {
        None
    }
}

/// An identifier starts at `pos`.
pub open spec fn ident_at(src: Seq<u8>, pos: int) -> bool {
    0 <= pos < src.len() && ident_first(src[pos] as char)
}

/// A separator stands at `pos`.
pub open spec fn separator_at(src: Seq<u8>, pos: int) -> bool {
    0 <= pos < src.len() && is_separator(src[pos])
}

/// What kind of token a lexeme is. An identifier's text is the source over
/// the lexeme's span.
pub enum LexemeKind {
    NewLine,
    Symbol(Symbol),
    Ident,
}

/// A token as the rules place it in the source: its kind, the span
/// `start..end` that it carries, and the position `next` from which
/// tokenization goes on.
pub struct Lexeme {
    pub kind: LexemeKind,
    pub start: int,
    pub end: int,
    pub next: int,
}

/// The single token that starts exactly at `pos`, tried in this order: a
/// symbol, an identifier, a separator. The result is the token's kind and
/// the position after it.
pub open spec fn token_at(src: Seq<u8>, pos: int) -> Option<(LexemeKind, int)> {
    if let Some(symbol) = symbol_at(src, pos) {
        Some((LexemeKind::Symbol(symbol), pos + symbol_len(symbol)))
    } else if ident_at(src, pos) {
        Some((LexemeKind::Ident, ident_end(src, pos)))
    } else if separator_at(src, pos) {
        Some((LexemeKind::NewLine, pos + 1))
    } else {
        None
    }
}

/// The next token of the sequence with the scan at `pos`.
///
/// Blanks are skipped. A separator there yields one `NewLine` with the
/// span of that separator, and the scan goes on behind the whole run of
/// blanks and separators that follows. Otherwise the token that starts there
/// is yielded, if any; where none does, the sequence ends.
pub open spec fn next_lexeme(src: Seq<u8>, pos: int) -> Option<Lexeme> {
    let start = skip_blanks(src, pos);
    if separator_at(src, start) {
        Some(
            Lexeme {
                kind: LexemeKind::NewLine,
                start,
                end: start + 1,
                next: skip_separators(src, start + 1),
            },
        )
    } else {
        match token_at(src, start) {
            Some((kind, end)) => Some(Lexeme { kind, start, end, next: end }),
            None => None,
        }
    }
}

/// Where the scan rests after an attempt at the next token from `pos`:
/// behind the token, or, at the end of the sequence, behind the blanks.
pub open spec fn next_position(src: Seq<u8>, pos: int) -> int {
    match next_lexeme(src, pos) {
        Some(lexeme) => lexeme.next,
        None => skip_blanks(src, pos),
    }
}

/// The whole sequence of tokens with the scan at `pos`.
pub open spec fn lexemes_from(src: Seq<u8>, pos: int) -> Seq<Lexeme>
    decreases src.len() - pos,
    when 0 <= pos <= src.len()
{
    match next_lexeme(src, pos) {
        Some(lexeme) => {
            proof {
                lemma_next_lexeme_bounds(src, pos);
            }
            seq![lexeme] + lexemes_from(src, lexeme.next)
        },
        None => Seq::empty(),
    }
}

/// Where the sequence of tokens ends with the scan at `pos`: at the end of
/// the source, or at the first byte behind the last token and the blanks
/// after it that starts no token.
pub open spec fn end_from(src: Seq<u8>, pos: int) -> int
    decreases src.len() - pos,
    when 0 <= pos <= src.len()
{
    match next_lexeme(src, pos) {
        Some(lexeme) => {
            proof {
                lemma_next_lexeme_bounds(src, pos);
            }
            end_from(src, lexeme.next)
        },
        None => skip_blanks(src, pos),
    }
}

/// Where the sequence of tokens of a whole source text ends.
pub open spec fn end_position(src: Seq<u8>) -> int {
    end_from(src, start_position(src))
}

/// Where the scan starts: behind the leading spaces and tabs.
pub open spec fn start_position(src: Seq<u8>) -> int {
    leading_indent(src, 0)
}

/// The first position at or after `pos` that holds neither a space nor a tab.
pub open spec fn leading_indent(src: Seq<u8>, pos: int) -> int
    decreases src.len() - pos,
{
    if 0 <= pos < src.len() && (src[pos] == SPACE || src[pos] == TAB) {
        leading_indent(src, pos + 1)
    } else {
        pos
    }
}

/// The tokens of a whole source text.
pub open spec fn lexemes(src: Seq<u8>) -> Seq<Lexeme> {
    lexemes_from(src, start_position(src))
}

/// The token of kind `kind` that covers `start..end` of `src`: an
/// identifier's text is the source over that span.
pub open spec fn token_view(src: Seq<u8>, kind: LexemeKind, start: int, end: int) -> TokenView {
    match kind {
        LexemeKind::NewLine => TokenView::NewLine,
        LexemeKind::Symbol(symbol) => TokenView::Symbol(symbol),
        LexemeKind::Ident => TokenView::Ident(decode_utf8(src.subrange(start, end))),
    }
}

/// The token that `lexeme` denotes in `src`, with its span.
pub open spec fn spanned_token(src: Seq<u8>, lexeme: Lexeme) -> Spanned<TokenView> {
    Spanned(
        token_view(src, lexeme.kind, lexeme.start, lexeme.end),
        Range { start: lexeme.start as usize, end: lexeme.end as usize },
    )
}

/// The tokens that `lexemes` denote in `src`, with their spans.
pub open spec fn spanned_tokens(src: Seq<u8>, lexemes: Seq<Lexeme>) -> Seq<Spanned<TokenView>> {
    Seq::new(lexemes.len(), |i: int| spanned_token(src, lexemes[i]))
}

/// The spanned tokens of a whole source text.
pub open spec fn tokens_of(src: Seq<u8>) -> Seq<Spanned<TokenView>> {
    spanned_tokens(src, lexemes(src))
}

/// Skipping blanks stays within the source and stops at a byte that is not
/// blank.
pub proof fn lemma_skip_blanks(src: Seq<u8>, pos: int)
    requires
        0 <= pos <= src.len(),
    ensures
        pos <= skip_blanks(src, pos) <= src.len(),
        skip_blanks(src, pos) < src.len() ==> !is_blank(src[skip_blanks(src, pos)]),
        forall|i: int| pos <= i < skip_blanks(src, pos) ==> is_blank(#[trigger] src[i]),
    decreases src.len() - pos,
{
    if pos < src.len() && is_blank(src[pos]) {
        lemma_skip_blanks(src, pos + 1);
    }
}

/// Skipping blanks and separators stays within the source and stops at a
/// byte that is neither.
pub proof fn lemma_skip_separators(src: Seq<u8>, pos: int)
    requires
        0 <= pos <= src.len(),
    ensures
        pos <= skip_separators(src, pos) <= src.len(),
        skip_separators(src, pos) < src.len() ==> {
            let stop = src[skip_separators(src, pos)];
            !is_blank(stop) && !is_separator(stop)
        },
        forall|i: int|
            pos <= i < skip_separators(src, pos) ==> is_blank(#[trigger] src[i]) || is_separator(
                src[i],
            ),
    decreases src.len() - pos,
{
    if pos < src.len() && (is_blank(src[pos]) || is_separator(src[pos])) {
        lemma_skip_separators(src, pos + 1);
    }
}

/// An identifier's end lies within the source, behind identifier bytes only,
/// and at a byte that cannot continue an identifier.
pub proof fn lemma_ident_end(src: Seq<u8>, pos: int)
    requires
        0 <= pos <= src.len(),
    ensures
        pos <= ident_end(src, pos) <= src.len(),
        ident_end(src, pos) < src.len() ==> !ident_rest(src[ident_end(src, pos)] as char),
        forall|i: int| pos <= i < ident_end(src, pos) ==> ident_rest(#[trigger] src[i] as char),
        ident_at(src, pos) ==> pos < ident_end(src, pos),
    decreases src.len() - pos,
{
    if pos < src.len() && ident_rest(src[pos] as char) {
        lemma_ident_end(src, pos + 1);
    }
}

/// Blanks in front of a run of blanks and separators belong to the run.
pub proof fn lemma_skip_separators_after_blanks(src: Seq<u8>, pos: int)
    requires
        0 <= pos <= src.len(),
    ensures
        skip_separators(src, skip_blanks(src, pos)) == skip_separators(src, pos),
    decreases src.len() - pos,
{
    if pos < src.len() && is_blank(src[pos]) {
        lemma_skip_separators_after_blanks(src, pos + 1);
    }
}

/// A token covers at least one byte, lies within the source, and the scan
/// goes on at or behind its end.
pub proof fn lemma_next_lexeme_bounds(src: Seq<u8>, pos: int)
    requires
        0 <= pos <= src.len(),
    ensures
        match next_lexeme(src, pos) {
            Some(lexeme) => pos <= lexeme.start < lexeme.end <= lexeme.next <= src.len(),
            None => true,
        },
{
    lemma_skip_blanks(src, pos);
    let start = skip_blanks(src, pos);
    if separator_at(src, start) {
        lemma_skip_separators(src, start + 1);
    } else {
        lemma_ident_end(src, start);
    }
}

} // verus!
