//! The tokens of the language.

use vstd::prelude::*;
use crate::span::Spanned;

verus! {

/// The fixed symbols of the language.
#[derive(Clone, Copy, Debug, PartialEq, Eq, PartialOrd, Ord, Structural)]
pub enum Symbol {
    /// `\`, which opens a lambda.
    Lambda,
    /// `->`, between a lambda's parameter and its body.
    Arrow,
    /// `=`, between a name and its definition.
    Define,
    /// `(`, which opens a block.
    OpenParen,
    /// `)`, which closes a block.
    CloseParen,
}

/// A token. An identifier borrows its text from the source.
#[derive(Clone, Copy, Debug, PartialEq, Eq)]
pub enum Token<'i> {
    /// End of a statement: a line feed or a `;`.
    NewLine,
    Symbol(Symbol),
    Ident(&'i str),
}

/// What a [`Token`] stands for: an identifier is its sequence of characters.
pub enum TokenView {
    NewLine,
    Symbol(Symbol),
    Ident(Seq<char>),
}

impl<'i> View for Token<'i> {
    type V = TokenView;

    open spec fn view(&self) -> TokenView {
        match *self {
            Token::NewLine => TokenView::NewLine,
            Token::Symbol(symbol) => TokenView::Symbol(symbol),
            Token::Ident(text) => TokenView::Ident(text@),
        }
    }
}

/// What a sequence of spanned tokens stands for, token by token.
pub open spec fn token_views<'i>(tokens: Seq<Spanned<Token<'i>>>) -> Seq<Spanned<TokenView>> {
    tokens.map_values(|token: Spanned<Token<'i>>| token@)
}

} // verus!
