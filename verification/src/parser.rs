//! The recursive-descent parser: from spanned tokens to the syntax tree.
//!
//! Every rule leaves the stream behind what it has read, or, where it
//! fails, at the position at which it was tried.

use vstd::prelude::*;
use vstd::string::StringSliceAdditionalSpecFns;
use vstd::utf8::decode_utf8;
use crate::ast::{defs_view, Block, Call, Def, DefList, DefView, Expr, Lambda, Module};
use crate::lexer::{lex_entire, LexError};
use crate::lexical::{end_position, tokens_of};
use crate::failure::{Expectation, FailureKind, ParseFailure};
use crate::grammar;
use crate::grammar::follows;
use crate::span::Spanned;
use crate::stream::{remaining, TokenSource, TokenStream};
use crate::token::{token_views, Symbol, Token};

verus! {

/// What a result stands for: the model of the value, or the failure.
pub open spec fn result_view<T: View>(result: Result<T, ParseFailure>) -> Result<
    T::V,
    ParseFailure,
> {
    match result {
        Ok(value) => Ok(value@),
        Err(failure) => Err(failure),
    }
}

/// The recoverable failure at the current position of a rule that expects
/// `expected`.
fn mismatch<'i, S: TokenSource<'i>>(input: &S, expected: Expectation) -> (failure: ParseFailure)
    requires
        input.wf(),
    ensures
        failure == grammar::mismatch(input.tokens(), input.offset(), expected),
{
    ParseFailure { kind: FailureKind::Recoverable, span: input.span_here(), expected }
}

/// Reads any token. Fails recoverably at the end of the tokens.
pub fn token<'i, S: TokenSource<'i>>(input: &mut S) -> (result: Result<
    Spanned<Token<'i>>,
    ParseFailure,
>)
    requires
        old(input).wf(),
    ensures
        final(input).wf(),
        final(input).tokens() == old(input).tokens(),
        follows(
            grammar::token(old(input).tokens(), old(input).offset()),
            old(input).offset(),
            result_view(result),
            final(input).offset(),
        ),
{
    match input.next_token() {
        Some(token) => Ok(token),
        None => Err(mismatch(input, Expectation::Token)),
    }
}

/// Reads an identifier. Fails recoverably at anything else.
pub fn ident<'i, S: TokenSource<'i>>(input: &mut S) -> (result: Result<
    Spanned<&'i str>,
    ParseFailure,
>)
    requires
        old(input).wf(),
    ensures
        final(input).wf(),
        final(input).tokens() == old(input).tokens(),
        follows(
            grammar::ident(old(input).tokens(), old(input).offset()),
            old(input).offset(),
            result_view(result),
            final(input).offset(),
        ),
{
    match input.peek_token() {
        Some(Spanned(Token::Ident(text), span)) => {
            let _ = input.next_token();
            Ok(Spanned(text, span))
        },
        _ => Err(mismatch(input, Expectation::Identifier)),
    }
}

/// Whether `left` and `right` are the same text.
fn same_text(left: &str, right: &str) -> (same: bool)
    ensures
        same == (left@ == right@),
{
    broadcast use vstd::utf8::group_utf8_lib;

    let left_bytes = left.as_bytes();
    let right_bytes = right.as_bytes();
    if left_bytes.len() != right_bytes.len() {
        return false;
    }
    let mut index: usize = 0;
    while index < left_bytes.len()
        invariant
            left_bytes@ == left.spec_bytes(),
            right_bytes@ == right.spec_bytes(),
            left_bytes@.len() == right_bytes@.len(),
            index <= left_bytes@.len(),
            forall|i: int| 0 <= i < index ==> left_bytes@[i] == right_bytes@[i],
        decreases left_bytes@.len() - index,
    {
        if left_bytes[index] != right_bytes[index] {
            return false;
        }
        index = index + 1;
    }
    assert(left.spec_bytes() =~= right.spec_bytes());
    assert(decode_utf8(left.spec_bytes()) == left@);
    assert(decode_utf8(right.spec_bytes()) == right@);
    true
}

/// Reads the identifier that reads `word`. Fails recoverably at anything
/// else, with that word as the expectation.
pub fn keyword<'i, S: TokenSource<'i>>(word: &'static str, input: &mut S) -> (result: Result<
    Spanned<()>,
    ParseFailure,
>)
    requires
        old(input).wf(),
    ensures
        final(input).wf(),
        final(input).tokens() == old(input).tokens(),
        follows(
            grammar::keyword(old(input).tokens(), old(input).offset(), word),
            old(input).offset(),
            result_view(result),
            final(input).offset(),
        ),
{
    match input.peek_token() {
        Some(Spanned(Token::Ident(text), span)) => {
            if same_text(text, word) {
                let _ = input.next_token();
                return Ok(Spanned((), span));
            }
        },
        _ => {},
    }
    Err(mismatch(input, Expectation::Keyword(word)))
}

/// Reads the symbol `expected`. Fails recoverably at anything else, with
/// that symbol as the expectation.
pub fn symbol<'i, S: TokenSource<'i>>(expected: &Symbol, input: &mut S) -> (result: Result<
    Spanned<()>,
    ParseFailure,
>)
    requires
        old(input).wf(),
    ensures
        final(input).wf(),
        final(input).tokens() == old(input).tokens(),
        follows(
            grammar::symbol(old(input).tokens(), old(input).offset(), *expected),
            old(input).offset(),
            result_view(result),
            final(input).offset(),
        ),
{
    match input.peek_token() {
        Some(Spanned(Token::Symbol(found), span)) => {
            if found == *expected {
                let _ = input.next_token();
                return Ok(Spanned((), span));
            }
        },
        _ => {},
    }
    Err(mismatch(input, Expectation::Symbol(*expected)))
}

/// Reads a statement separator. Fails recoverably at anything else.
pub fn newline<'i, S: TokenSource<'i>>(input: &mut S) -> (result: Result<Spanned<()>, ParseFailure>)
    requires
        old(input).wf(),
    ensures
        final(input).wf(),
        final(input).tokens() == old(input).tokens(),
        follows(
            grammar::newline(old(input).tokens(), old(input).offset()),
            old(input).offset(),
            result_view(result),
            final(input).offset(),
        ),
{
    match input.peek_token() {
        Some(Spanned(Token::NewLine, span)) => {
            let _ = input.next_token();
            Ok(Spanned((), span))
        },
        _ => Err(mismatch(input, Expectation::NewLine)),
    }
}

/// Reads a statement separator if one is there, and never fails.
pub fn maybe_newline<'i, S: TokenSource<'i>>(input: &mut S) -> (separator: Option<Spanned<()>>)
    requires
        old(input).wf(),
    ensures
        final(input).wf(),
        final(input).tokens() == old(input).tokens(),
        separator == grammar::maybe_newline(old(input).tokens(), old(input).offset()),
        final(input).offset() == grammar::after_newline(old(input).tokens(), old(input).offset()),
{
    match newline(input) {
        Ok(separator) => Some(separator),
        Err(_) => None,
    }
}

impl<'i> Expr<'i> {
    /// Parses an expression: an atom, applied in turn to each atom that
    /// follows it, so that `f a b` is `f a` applied to `b`.
    pub fn parse<S: TokenSource<'i>>(input: &mut S) -> (result: Result<Expr<'i>, ParseFailure>)
        requires
            old(input).wf(),
        ensures
            final(input).wf(),
            final(input).tokens() == old(input).tokens(),
            follows(
                grammar::expr(old(input).tokens(), old(input).offset()),
                old(input).offset(),
                result_view(result),
                final(input).offset(),
            ),
        decreases remaining(old(input)), 3int,
    {
        let ghost tokens = input.tokens();
        let start = input.checkpoint();
        let mut lhs: Expr<'i> = match Expr::parse_atom(input) {
            Ok(first) => first,
            Err(failure) => {
                return Err(failure);
            },
        };
        proof {
            grammar::lemma_atom_advances(tokens, start.offset());
        }
        loop
            invariant
                input.wf(),
                input.tokens() == tokens,
                tokens == old(input).tokens(),
                start.wf(),
                start.tokens() == tokens,
                start.offset() == old(input).offset(),
                start.offset() < input.offset() <= tokens.len(),
                grammar::applications(tokens, input.offset(), lhs@) == grammar::expr(
                    tokens,
                    start.offset(),
                ),
            decreases tokens.len() - input.offset(),
        {
            proof {
                grammar::lemma_atom_advances(tokens, input.offset());
            }
            match Expr::parse_atom(input) {
                Ok(rhs) => {
                    lhs = Expr::Call(Call { func: Box::new(lhs), arg: Box::new(rhs) });
                },
                Err(failure) => {
                    if failure.is_fatal() {
                        *input = start;
                        return Err(failure);
                    }
                    return Ok(lhs);
                },
            }
        }
    }

    /// Parses one atom: a variable, else a lambda, else a block.
    pub fn parse_atom<S: TokenSource<'i>>(input: &mut S) -> (result: Result<Expr<'i>, ParseFailure>)
        requires
            old(input).wf(),
        ensures
            final(input).wf(),
            final(input).tokens() == old(input).tokens(),
            follows(
                grammar::atom(old(input).tokens(), old(input).offset()),
                old(input).offset(),
                result_view(result),
                final(input).offset(),
            ),
        decreases remaining(old(input)), 2int,
    {
        if let Ok(name) = ident(input) {
            return Ok(Expr::Variable(name));
        }
        match Lambda::parse(input) {
            Ok(lambda) => {
                return Ok(Expr::Lambda(lambda));
            },
            Err(failure) => {
                if failure.is_fatal() {
                    return Err(failure);
                }
            },
        }
        match Block::parse(input) {
            Ok(block) => Ok(Expr::Block(block)),
            Err(failure) => Err(failure),
        }
    }
}

impl<'i> Lambda<'i> {
    /// Parses a lambda. Once the `\` is read the parameter must follow:
    /// where it does not, the failure is fatal.
    pub fn parse<S: TokenSource<'i>>(input: &mut S) -> (result: Result<Lambda<'i>, ParseFailure>)
        requires
            old(input).wf(),
        ensures
            final(input).wf(),
            final(input).tokens() == old(input).tokens(),
            follows(
                grammar::lambda(old(input).tokens(), old(input).offset()),
                old(input).offset(),
                result_view(result),
                final(input).offset(),
            ),
        decreases remaining(old(input)), 1int,
    {
        let start = input.checkpoint();
        if let Err(failure) = symbol(&Symbol::Lambda, input) {
            return Err(failure);
        }
        let param: Spanned<&'i str> = match ident(input) {
            Ok(param) => param,
            Err(failure) => {
                *input = start;
                return Err(failure.cut());
            },
        };
        let _ = maybe_newline(input);
        if let Err(failure) = symbol(&Symbol::Arrow, input) {
            *input = start;
            return Err(failure);
        }
        let _ = maybe_newline(input);
        match Expr::parse(input) {
            Ok(body) => Ok(Lambda { param, body: Box::new(body) }),
            Err(failure) => {
                *input = start;
                Err(failure.relabel(Expectation::Expression))
            },
        }
    }
}

impl<'i> Block<'i> {
    /// Parses a block: definitions in parentheses, a separator behind
    /// them, and then the block's value, if it has one.
    pub fn parse<S: TokenSource<'i>>(input: &mut S) -> (result: Result<Block<'i>, ParseFailure>)
        requires
            old(input).wf(),
        ensures
            final(input).wf(),
            final(input).tokens() == old(input).tokens(),
            follows(
                grammar::block(old(input).tokens(), old(input).offset()),
                old(input).offset(),
                result_view(result),
                final(input).offset(),
            ),
        decreases remaining(old(input)), 1int,
    {
        let ghost tokens = input.tokens();
        let start = input.checkpoint();
        if let Err(failure) = symbol(&Symbol::OpenParen, input) {
            return Err(failure);
        }
        let _ = maybe_newline(input);
        proof {
            grammar::lemma_def_list_advances(tokens, input.offset());
        }
        let defs: DefList<'i> = match DefList::parse(input) {
            Ok(defs) => defs,
            Err(failure) => {
                *input = start;
                return Err(failure);
            },
        };
        if let Err(failure) = newline(input) {
            *input = start;
            return Err(failure);
        }
        let expr: Option<Box<Expr<'i>>> = match Expr::parse(input) {
            Ok(value) => Some(Box::new(value)),
            Err(failure) => {
                if failure.is_fatal() {
                    *input = start;
                    return Err(failure);
                }
                None
            },
        };
        let _ = maybe_newline(input);
        if let Err(failure) = symbol(&Symbol::CloseParen, input) {
            *input = start;
            return Err(failure);
        }
        Ok(Block { defs, expr })
    }
}

impl<'i> Def<'i> {
    /// Parses a definition: a name, `=`, and the expression bound to it.
    pub fn parse<S: TokenSource<'i>>(input: &mut S) -> (result: Result<Def<'i>, ParseFailure>)
        requires
            old(input).wf(),
        ensures
            final(input).wf(),
            final(input).tokens() == old(input).tokens(),
            follows(
                grammar::def(old(input).tokens(), old(input).offset()),
                old(input).offset(),
                result_view(result),
                final(input).offset(),
            ),
        decreases remaining(old(input)), 1int,
    {
        let start = input.checkpoint();
        let name: Spanned<&'i str> = match ident(input) {
            Ok(name) => name,
            Err(failure) => {
                return Err(failure.relabel(Expectation::DefinitionName));
            },
        };
        if let Err(failure) = symbol(&Symbol::Define, input) {
            *input = start;
            return Err(failure);
        }
        match Expr::parse(input) {
            Ok(expr) => Ok(Def { ident: name, expr }),
            Err(failure) => {
                *input = start;
                Err(failure.relabel(Expectation::Expression))
            },
        }
    }
}

impl<'i> DefList<'i> {
    /// Parses one definition or more, with a separator between each two. A
    /// separator that no definition follows is left unread.
    pub fn parse<S: TokenSource<'i>>(input: &mut S) -> (result: Result<DefList<'i>, ParseFailure>)
        requires
            old(input).wf(),
        ensures
            final(input).wf(),
            final(input).tokens() == old(input).tokens(),
            follows(
                grammar::def_list(old(input).tokens(), old(input).offset()),
                old(input).offset(),
                result_view(result),
                final(input).offset(),
            ),
        decreases remaining(old(input)), 2int,
    {
        let ghost tokens = input.tokens();
        let start = input.checkpoint();
        let first: Def<'i> = match Def::parse(input) {
            Ok(first) => first,
            Err(failure) => {
                return Err(failure.relabel(Expectation::DefList));
            },
        };
        let mut defs: Vec<Def<'i>> = Vec::new();
        defs.push(first);
        proof {
            grammar::lemma_def_advances(tokens, start.offset());
            assert(defs_view(defs@.drop_last()) =~= Seq::empty());
        }
        loop
            invariant
                input.wf(),
                input.tokens() == tokens,
                tokens == old(input).tokens(),
                start.wf(),
                start.tokens() == tokens,
                start.offset() == old(input).offset(),
                start.offset() < input.offset() <= tokens.len(),
                grammar::more_defs(tokens, input.offset(), defs_view(defs@)) == grammar::def_list(
                    tokens,
                    start.offset(),
                ),
            decreases tokens.len() - input.offset(),
        {
            let before = input.checkpoint();
            if newline(input).is_err() {
                return Ok(DefList { defs });
            }
            proof {
                grammar::lemma_def_advances(tokens, input.offset());
            }
            match Def::parse(input) {
                Ok(def) => {
                    let ghost earlier = defs@;
                    defs.push(def);
                    proof {
                        assert(defs@.drop_last() =~= earlier);
                    }
                },
                Err(failure) => {
                    if failure.is_fatal() {
                        *input = start;
                        return Err(failure);
                    }
                    *input = before;
                    return Ok(DefList { defs });
                },
            }
        }
    }
}

impl<'i> Module<'i> {
    /// Parses a module: its definitions, and a separator behind them if
    /// one is there.
    pub fn parse<S: TokenSource<'i>>(input: &mut S) -> (result: Result<Module<'i>, ParseFailure>)
        requires
            old(input).wf(),
        ensures
            final(input).wf(),
            final(input).tokens() == old(input).tokens(),
            follows(
                grammar::module(old(input).tokens(), old(input).offset()),
                old(input).offset(),
                result_view(result),
                final(input).offset(),
            ),
    {
        match DefList::parse(input) {
            Ok(defs) => {
                let _ = maybe_newline(input);
                Ok(Module::new(defs))
            },
            Err(failure) => Err(failure),
        }
    }
}

impl<'i> Call<'i> {
    /// Parses a function and then an argument, each as an expression.
    pub fn parse<S: TokenSource<'i>>(input: &mut S) -> (result: Result<Call<'i>, ParseFailure>)
        requires
            old(input).wf(),
        ensures
            final(input).wf(),
            final(input).tokens() == old(input).tokens(),
            follows(
                grammar::call(old(input).tokens(), old(input).offset()),
                old(input).offset(),
                result_view(result),
                final(input).offset(),
            ),
    {
        let start = input.checkpoint();
        let func: Expr<'i> = match Expr::parse(input) {
            Ok(func) => func,
            Err(failure) => {
                return Err(failure.relabel(Expectation::Function));
            },
        };
        match Expr::parse(input) {
            Ok(arg) => Ok(Call { func: Box::new(func), arg: Box::new(arg) }),
            Err(failure) => {
                *input = start;
                Err(failure.relabel(Expectation::Argument))
            },
        }
    }
}

/// Parses all of `tokens` as a module. Tokens left behind the module are a
/// fatal failure at the first of them.
pub fn parse_module<'i>(tokens: &[Spanned<Token<'i>>]) -> (result: Result<
    Module<'i>,
    ParseFailure,
>)
    ensures
        result_view(result) == grammar::whole_module(token_views(tokens@)),
{
    let mut input = TokenStream::new(tokens);
    match Module::parse(&mut input) {
        Ok(module) => {
            if input.is_at_end() {
                Ok(module)
            } else {
                Err(
                    ParseFailure {
                        kind: FailureKind::Fatal,
                        span: input.span_here(),
                        expected: Expectation::EndOfInput,
                    },
                )
            }
        },
        Err(failure) => Err(failure),
    }
}

/// Why a source text is no module.
#[derive(Debug, PartialEq, Eq)]
pub enum SourceError {
    /// The text holds something that starts no token.
    Lexical(LexError),
    /// The tokens do not make up a module.
    Syntax(ParseFailure),
}

/// Lexes and parses all of `input` as a module. Text that starts no token
/// is a lexical error, whatever stands before it; tokens that make up no
/// module, or that are left behind one, are a syntax error.
pub fn parse_source<'i>(input: &'i str) -> (result: Result<Module<'i>, SourceError>)
    ensures
        match result {
            Ok(module) => {
                &&& end_position(input.spec_bytes()) == input.spec_bytes().len()
                &&& grammar::whole_module(tokens_of(input.spec_bytes())) == Ok::<
                    _,
                    ParseFailure,
                >(module@)
            },
            Err(SourceError::Lexical(error)) => {
                &&& end_position(input.spec_bytes()) < input.spec_bytes().len()
                &&& error.position == end_position(input.spec_bytes())
            },
            Err(SourceError::Syntax(failure)) => {
                &&& end_position(input.spec_bytes()) == input.spec_bytes().len()
                &&& grammar::whole_module(tokens_of(input.spec_bytes())) == Err::<
                    Seq<DefView>,
                    _,
                >(failure)
            },
        },
{
    let tokens = match lex_entire(input) {
        Ok(tokens) => tokens,
        Err(error) => {
            return Err(SourceError::Lexical(error));
        },
    };
    match parse_module(tokens.as_slice()) {
        Ok(module) => Ok(module),
        Err(failure) => Err(SourceError::Syntax(failure)),
    }
}

} // verus!
