//! Laws of tokenization, proved from the rules.

use std::ops::Range;
use vstd::prelude::*;
use vstd::string::StringSliceAdditionalSpecFns;
use crate::lexical::{
    ident_end, ident_rest, is_blank, is_identifier, is_separator, leading_indent, lemma_ident_end,
    lemma_next_lexeme_bounds, lexemes, lexemes_from, next_lexeme, skip_blanks, skip_separators,
    start_position, token_at, tokens_of, Lexeme, LexemeKind,
};
use crate::span::Spanned;
use crate::token::TokenView;

verus! {

broadcast use vstd::utf8::group_utf8_lib;

/// Through bytes that can all continue an identifier, an identifier runs to
/// the end of the source.
proof fn lemma_ident_end_of_identifier(src: Seq<u8>, pos: int)
    requires
        0 <= pos <= src.len(),
        forall|i: int| pos <= i < src.len() ==> ident_rest(#[trigger] src[i] as char),
    ensures
        ident_end(src, pos) == src.len(),
    decreases src.len() - pos,
{
    if pos < src.len() {
        lemma_ident_end_of_identifier(src, pos + 1);
    }
}

/// Skipping blanks from the end of the leading spaces and tabs leads where
/// skipping blanks from `pos` does.
proof fn lemma_skip_blanks_after_indent(src: Seq<u8>, pos: int)
    requires
        0 <= pos <= src.len(),
    ensures
        skip_blanks(src, leading_indent(src, pos)) == skip_blanks(src, pos),
    decreases src.len() - pos,
{
    if pos < src.len() && is_blank(src[pos]) {
        lemma_skip_blanks_after_indent(src, pos + 1);
    }
}

/// Tokenization does not depend on leading spaces and tabs having been
/// skipped first.
proof fn lemma_next_lexeme_after_indent(src: Seq<u8>)
    ensures
        next_lexeme(src, start_position(src)) == next_lexeme(src, 0),
{
    lemma_skip_blanks_after_indent(src, 0);
}

/// An identifier alone lexes to exactly one token: that identifier, with a
/// span that covers the whole text.
pub proof fn lemma_identifier_is_one_token(text: &str)
    requires
        is_identifier(text.spec_bytes()),
    ensures
        lexemes(text.spec_bytes()) == seq![
            Lexeme {
                kind: LexemeKind::Ident,
                start: 0,
                end: text.spec_bytes().len() as int,
                next: text.spec_bytes().len() as int,
            },
        ],
        tokens_of(text.spec_bytes()) == seq![
            Spanned(
                TokenView::Ident(text@),
                Range { start: 0, end: text.spec_bytes().len() as usize },
            ),
        ],
{
    let src = text.spec_bytes();
    let len = src.len() as int;
    lemma_ident_end_of_identifier(src, 0);
    assert(lexemes_from(src, len) =~= Seq::empty());
    assert(src.subrange(0, len) =~= src);
}

/// The first offset at or after `pos` that holds a separator.
pub open spec fn first_separator(src: Seq<u8>, pos: int) -> int
    decreases src.len() - pos,
{
    if 0 <= pos < src.len() && !is_separator(src[pos]) {
        first_separator(src, pos + 1)
    } else {
        pos
    }
}

/// In a run of blanks and separators the first separator is where the blanks
/// at its start end.
proof fn lemma_first_separator_of_run(src: Seq<u8>, pos: int, end: int)
    requires
        0 <= pos <= end <= src.len(),
        forall|i: int| pos <= i < end ==> is_blank(#[trigger] src[i]) || is_separator(src[i]),
        exists|i: int| pos <= i < end && is_separator(#[trigger] src[i]),
    ensures
        first_separator(src, pos) == skip_blanks(src, pos),
        pos <= first_separator(src, pos) < end,
        is_separator(src[first_separator(src, pos)]),
    decreases src.len() - pos,
{
    if !is_separator(src[pos]) {
        lemma_first_separator_of_run(src, pos + 1, end);
    }
}

/// A run of blanks and separators is skipped as a whole.
proof fn lemma_skip_separators_of_run(src: Seq<u8>, pos: int, end: int)
    requires
        0 <= pos <= end <= src.len(),
        forall|i: int| pos <= i < end ==> is_blank(#[trigger] src[i]) || is_separator(src[i]),
        end < src.len() ==> !is_blank(src[end]) && !is_separator(src[end]),
    ensures
        skip_separators(src, pos) == end,
    decreases end - pos,
{
    if pos < end {
        lemma_skip_separators_of_run(src, pos + 1, end);
    }
}

/// A run of blanks and separators that holds at least one separator, from
/// `pos` up to `end`, yields exactly one `NewLine`: it carries the span of the
/// first separator of the run, and tokenization goes on at `end`.
pub proof fn lemma_separator_run_is_one_newline(src: Seq<u8>, pos: int, end: int)
    requires
        0 <= pos <= end <= src.len(),
        forall|i: int| pos <= i < end ==> is_blank(#[trigger] src[i]) || is_separator(src[i]),
        exists|i: int| pos <= i < end && is_separator(#[trigger] src[i]),
        end < src.len() ==> !is_blank(src[end]) && !is_separator(src[end]),
    ensures
        next_lexeme(src, pos) == Some(
            Lexeme {
                kind: LexemeKind::NewLine,
                start: first_separator(src, pos),
                end: first_separator(src, pos) + 1,
                next: end,
            },
        ),
{
    lemma_first_separator_of_run(src, pos, end);
    lemma_skip_separators_of_run(src, first_separator(src, pos) + 1, end);
}

/// A source text made of blanks and separators alone, with at least one
/// separator, lexes to exactly one `NewLine`, which carries the span of the
/// first separator.
pub proof fn lemma_separators_alone_are_one_newline(src: Seq<u8>)
    requires
        forall|i: int| 0 <= i < src.len() ==> is_blank(#[trigger] src[i]) || is_separator(src[i]),
        exists|i: int| 0 <= i < src.len() && is_separator(#[trigger] src[i]),
    ensures
        lexemes(src) == seq![
            Lexeme {
                kind: LexemeKind::NewLine,
                start: first_separator(src, 0),
                end: first_separator(src, 0) + 1,
                next: src.len() as int,
            },
        ],
{
    let len = src.len() as int;
    lemma_separator_run_is_one_newline(src, 0, len);
    lemma_next_lexeme_after_indent(src);
    assert(lexemes_from(src, len) =~= Seq::empty());
}

/// No token starts with a decimal digit: not a symbol, not a separator, and
/// not an identifier.
pub proof fn lemma_digit_starts_no_token(src: Seq<u8>, pos: int)
    requires
        0 <= pos < src.len(),
        '0' <= src[pos] as char && src[pos] as char <= '9',
    ensures
        token_at(src, pos) is None,
        next_lexeme(src, pos) is None,
{
}

/// A source text that starts with a decimal digit lexes to no token at all.
pub proof fn lemma_leading_digit_ends_the_sequence(src: Seq<u8>)
    requires
        src.len() > 0,
        '0' <= src[0] as char && src[0] as char <= '9',
    ensures
        lexemes(src) == Seq::<Lexeme>::empty(),
        tokens_of(src) == Seq::<Spanned<TokenView>>::empty(),
{
}

/// Every token of a source text lies within it, covers at least one byte,
/// and ends where the next one starts or before: spans are in the order of
/// the source and do not overlap.
pub proof fn lemma_lexemes_in_order(src: Seq<u8>, pos: int)
    requires
        0 <= pos <= src.len(),
    ensures
        forall|i: int|
            0 <= i < lexemes_from(src, pos).len() ==> {
                let lexeme = #[trigger] lexemes_from(src, pos)[i];
                pos <= lexeme.start < lexeme.end <= lexeme.next <= src.len()
            },
        forall|i: int, j: int|
            0 <= i < j < lexemes_from(src, pos).len() ==> (#[trigger] lexemes_from(
                src,
                pos,
            )[i]).end <= (#[trigger] lexemes_from(src, pos)[j]).start,
    decreases src.len() - pos,
{
    lemma_next_lexeme_bounds(src, pos);
    if let Some(first) = next_lexeme(src, pos) {
        lemma_lexemes_in_order(src, first.next);
        let all = lexemes_from(src, pos);
        let rest = lexemes_from(src, first.next);
        assert forall|i: int, j: int| 0 <= i < j < all.len() implies (#[trigger] all[i]).end <= (
        #[trigger] all[j]).start by {
            assert(all[j] == rest[j - 1]);
        }
    }
}

/// The text of every identifier token is an identifier: letters, digits and
/// `_`, and no digit at its start.
pub proof fn lemma_ident_tokens_are_identifiers(src: Seq<u8>, pos: int)
    requires
        0 <= pos <= src.len(),
    ensures
        forall|i: int|
            0 <= i < lexemes_from(src, pos).len() ==> {
                let lexeme = #[trigger] lexemes_from(src, pos)[i];
                lexeme.kind is Ident ==> is_identifier(src.subrange(lexeme.start, lexeme.end))
            },
    decreases src.len() - pos,
{
    lemma_next_lexeme_bounds(src, pos);
    if let Some(first) = next_lexeme(src, pos) {
        lemma_ident_tokens_are_identifiers(src, first.next);
        if first.kind is Ident {
            lemma_ident_end(src, first.start);
            assert(is_identifier(src.subrange(first.start, first.end)));
        }
    }
}

} // verus!
