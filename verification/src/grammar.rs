//! The grammar, stated over a sequence of spanned tokens.
//!
//! ```text
//! Module    := DefList newline?
//! DefList   := Def (newline Def)*
//! Def       := ident '=' Expr
//! Expr      := Atom Atom*
//! Atom      := Variable | Lambda | Block
//! Variable  := ident
//! Lambda    := '\' ident newline? '->' newline? Expr
//! Block     := '(' newline? DefList newline Expr? newline? ')'
//! ```
//!
//! Each rule is a function from the tokens and a position to what the rule
//! yields there: a node and the position behind it, or a failure. The
//! alternatives of a rule are tried in order and the first that applies is
//! taken; a repetition goes on as long as it can. Everything here is
//! specification: the executable parser is proved to follow it.

use vstd::prelude::*;
use crate::ast::{BlockView, CallView, DefView, ExprView, LambdaView};
use crate::failure::{relabeled, Expectation, FailureKind, ParseFailure};
use crate::span::Spanned;
use crate::stream::span_at;
use crate::token::{Symbol, TokenView};

verus! {

/// What a rule yields: a value and the position behind it, or a failure.
pub type Parsed<T> = Result<(T, int), ParseFailure>;

/// The recoverable failure at `pos` of a rule that expects `expected`.
pub open spec fn mismatch(
    tokens: Seq<Spanned<TokenView>>,
    pos: int,
    expected: Expectation,
) -> ParseFailure {
    ParseFailure { kind: FailureKind::Recoverable, span: span_at(tokens, pos), expected }
}

/// Any token.
pub open spec fn token(tokens: Seq<Spanned<TokenView>>, pos: int) -> Parsed<Spanned<TokenView>> {
    if 0 <= pos < tokens.len() {
        Ok((tokens[pos], pos + 1))
    } else {
        Err(mismatch(tokens, pos, Expectation::Token))
    }
}

/// An identifier.
pub open spec fn ident(tokens: Seq<Spanned<TokenView>>, pos: int) -> Parsed<Spanned<Seq<char>>> {
    if 0 <= pos < tokens.len() && tokens[pos].0 is Ident {
        Ok((Spanned(tokens[pos].0->Ident_0, tokens[pos].1), pos + 1))
    } else {
        Err(mismatch(tokens, pos, Expectation::Identifier))
    }
}

/// The symbol `expected`.
pub open spec fn symbol(tokens: Seq<Spanned<TokenView>>, pos: int, expected: Symbol) -> Parsed<
    Spanned<()>,
> {
    if 0 <= pos < tokens.len() && tokens[pos].0 == TokenView::Symbol(expected) {
        Ok((Spanned((), tokens[pos].1), pos + 1))
    } else {
        Err(mismatch(tokens, pos, Expectation::Symbol(expected)))
    }
}

/// The identifier that reads `word`.
pub open spec fn keyword(
    tokens: Seq<Spanned<TokenView>>,
    pos: int,
    word: &'static str,
) -> Parsed<Spanned<()>> {
    if 0 <= pos < tokens.len() && tokens[pos].0 == TokenView::Ident(word@) {
        Ok((Spanned((), tokens[pos].1), pos + 1))
    } else {
        Err(mismatch(tokens, pos, Expectation::Keyword(word)))
    }
}

/// A statement separator.
pub open spec fn newline(tokens: Seq<Spanned<TokenView>>, pos: int) -> Parsed<Spanned<()>> {
    if 0 <= pos < tokens.len() && tokens[pos].0 is NewLine {
        Ok((Spanned((), tokens[pos].1), pos + 1))
    } else {
        Err(mismatch(tokens, pos, Expectation::NewLine))
    }
}

/// An optional statement separator: what it yields, if one is there.
pub open spec fn maybe_newline(tokens: Seq<Spanned<TokenView>>, pos: int) -> Option<Spanned<()>> {
    match newline(tokens, pos) {
        Ok((separator, _)) => Some(separator),
        Err(_) => None,
    }
}

/// The position behind an optional statement separator.
pub open spec fn after_newline(tokens: Seq<Spanned<TokenView>>, pos: int) -> int {
    if maybe_newline(tokens, pos) is Some {
        pos + 1
    } else {
        pos
    }
}

/// A rule that yields a node has read at least one token and not more than
/// there are. Every rule does; the repetitions ask for it so that they can
/// be seen to end.
pub open spec fn advances(tokens: Seq<Spanned<TokenView>>, pos: int, next: int) -> bool {
    pos < next <= tokens.len()
}

/// `func` applied to `arg`.
pub open spec fn call_of(func: ExprView, arg: ExprView) -> ExprView {
    ExprView::Call(CallView { func: Box::new(func), arg: Box::new(arg) })
}

/// `Expr := Atom Atom*`: a chain of applications, which associates to the
/// left. The chain ends without failure at the first position where no atom
/// starts.
pub open spec fn expr(tokens: Seq<Spanned<TokenView>>, pos: int) -> Parsed<ExprView>
    decreases tokens.len() - pos, 3int,
{
    match atom(tokens, pos) {
        Ok((first, next)) => if advances(tokens, pos, next) {
            applications(tokens, next, first)
        } else {
            Ok((first, next))
        },
        Err(failure) => Err(failure),
    }
}

/// `Atom*` behind the expression `func`: each further atom is an argument
/// that what stands before it is applied to. A recoverable failure of the
/// atom ends the chain; a fatal one is the chain's failure.
pub open spec fn applications(
    tokens: Seq<Spanned<TokenView>>,
    pos: int,
    func: ExprView,
) -> Parsed<ExprView>
    decreases tokens.len() - pos, 3int,
{
    match atom(tokens, pos) {
        Ok((arg, next)) => if advances(tokens, pos, next) {
            applications(tokens, next, call_of(func, arg))
        } else {
            Ok((func, pos))
        },
        Err(failure) => if failure.kind == FailureKind::Fatal {
            Err(failure)
        } else {
            Ok((func, pos))
        },
    }
}

/// `Atom := Variable | Lambda | Block`. An alternative is tried only where
/// the one before it failed recoverably; where all do, the failure is that
/// of the last.
pub open spec fn atom(tokens: Seq<Spanned<TokenView>>, pos: int) -> Parsed<ExprView>
    decreases tokens.len() - pos, 2int,
{
    match ident(tokens, pos) {
        Ok((name, next)) => Ok((ExprView::Variable(name), next)),
        Err(_) => match lambda(tokens, pos) {
            Ok((lambda, next)) => Ok((ExprView::Lambda(lambda), next)),
            Err(failure) => if failure.kind == FailureKind::Fatal {
                Err(failure)
            } else {
                match block(tokens, pos) {
                    Ok((block, next)) => Ok((ExprView::Block(block), next)),
                    Err(failure) => Err(failure),
                }
            },
        },
    }
}

/// `Lambda := '\' ident newline? '->' newline? Expr`. Behind the `\` a
/// missing parameter is a fatal failure.
pub open spec fn lambda(tokens: Seq<Spanned<TokenView>>, pos: int) -> Parsed<LambdaView>
    decreases tokens.len() - pos, 1int,
{
    match symbol(tokens, pos, Symbol::Lambda) {
        Err(failure) => Err(failure),
        Ok((_, at_param)) => match ident(tokens, at_param) {
            Err(failure) => Err(
                ParseFailure {
                    kind: FailureKind::Fatal,
                    span: failure.span,
                    expected: failure.expected,
                },
            ),
            Ok((param, after_param)) => match symbol(
                tokens,
                after_newline(tokens, after_param),
                Symbol::Arrow,
            ) {
                Err(failure) => Err(failure),
                Ok((_, after_arrow)) => match expr(tokens, after_newline(tokens, after_arrow)) {
                    Err(failure) => Err(relabeled(failure, Expectation::Expression)),
                    Ok((body, next)) => Ok((LambdaView { param, body: Box::new(body) }, next)),
                },
            },
        },
    }
}

/// `Block := '(' newline? DefList newline Expr? newline? ')'`. Where no
/// expression follows the definitions, the block has no value.
pub open spec fn block(tokens: Seq<Spanned<TokenView>>, pos: int) -> Parsed<BlockView>
    decreases tokens.len() - pos, 1int,
{
    match symbol(tokens, pos, Symbol::OpenParen) {
        Err(failure) => Err(failure),
        Ok((_, after_open)) => match def_list(tokens, after_newline(tokens, after_open)) {
            Err(failure) => Err(failure),
            Ok((defs, after_defs)) => match newline(tokens, after_defs) {
                Err(failure) => Err(failure),
                Ok((_, at_value)) => if advances(tokens, pos, at_value) {
                    match expr(tokens, at_value) {
                        Ok((value, after_value)) => block_end(
                            tokens,
                            after_value,
                            defs,
                            Some(Box::new(value)),
                        ),
                        Err(failure) => if failure.kind == FailureKind::Fatal {
                            Err(failure)
                        } else {
                            block_end(tokens, at_value, defs, None)
                        },
                    }
                } else {
                    block_end(tokens, at_value, defs, None)
                },
            },
        },
    }
}

/// `newline? ')'` at the end of a block with the definitions `defs` and the
/// value `value`.
pub open spec fn block_end(
    tokens: Seq<Spanned<TokenView>>,
    pos: int,
    defs: Seq<DefView>,
    value: Option<Box<ExprView>>,
) -> Parsed<BlockView> {
    match symbol(tokens, after_newline(tokens, pos), Symbol::CloseParen) {
        Err(failure) => Err(failure),
        Ok((_, next)) => Ok((BlockView { defs, expr: value }, next)),
    }
}

/// `Def := ident '=' Expr`.
pub open spec fn def(tokens: Seq<Spanned<TokenView>>, pos: int) -> Parsed<DefView>
    decreases tokens.len() - pos, 1int,
{
    match ident(tokens, pos) {
        Err(failure) => Err(relabeled(failure, Expectation::DefinitionName)),
        Ok((name, at_define)) => match symbol(tokens, at_define, Symbol::Define) {
            Err(failure) => Err(failure),
            Ok((_, at_expr)) => match expr(tokens, at_expr) {
                Err(failure) => Err(relabeled(failure, Expectation::Expression)),
                Ok((value, next)) => Ok((DefView { ident: name, expr: value }, next)),
            },
        },
    }
}

/// `DefList := Def (newline Def)*`: at least one definition, in the order of
/// the source.
pub open spec fn def_list(tokens: Seq<Spanned<TokenView>>, pos: int) -> Parsed<Seq<DefView>>
    decreases tokens.len() - pos, 2int,
{
    match def(tokens, pos) {
        Err(failure) => Err(relabeled(failure, Expectation::DefList)),
        Ok((first, next)) => if advances(tokens, pos, next) {
            more_defs(tokens, next, seq![first])
        } else {
            Ok((seq![first], next))
        },
    }
}

/// `(newline Def)*` behind the definitions `defs`. A separator that no
/// definition follows is not read: the list ends in front of it. A fatal
/// failure of a definition is the list's failure.
pub open spec fn more_defs(
    tokens: Seq<Spanned<TokenView>>,
    pos: int,
    defs: Seq<DefView>,
) -> Parsed<Seq<DefView>>
    decreases tokens.len() - pos, 2int,
{
    match newline(tokens, pos) {
        Err(_) => Ok((defs, pos)),
        Ok((_, at_def)) => match def(tokens, at_def) {
            Ok((next_def, next)) => if advances(tokens, pos, next) {
                more_defs(tokens, next, defs.push(next_def))
            } else {
                Ok((defs, pos))
            },
            Err(failure) => if failure.kind == FailureKind::Fatal {
                Err(failure)
            } else {
                Ok((defs, pos))
            },
        },
    }
}

/// `Module := DefList newline?`.
pub open spec fn module(tokens: Seq<Spanned<TokenView>>, pos: int) -> Parsed<Seq<DefView>> {
    match def_list(tokens, pos) {
        Err(failure) => Err(failure),
        Ok((defs, next)) => Ok((defs, after_newline(tokens, next))),
    }
}

/// A call written out: a function and then an argument, each an
/// expression.
pub open spec fn call(tokens: Seq<Spanned<TokenView>>, pos: int) -> Parsed<CallView> {
    match expr(tokens, pos) {
        Err(failure) => Err(relabeled(failure, Expectation::Function)),
        Ok((func, at_arg)) => match expr(tokens, at_arg) {
            Err(failure) => Err(relabeled(failure, Expectation::Argument)),
            Ok((arg, next)) => Ok((CallView { func: Box::new(func), arg: Box::new(arg) }, next)),
        },
    }
}

/// A whole sequence of tokens as a module: nothing may be left behind it.
pub open spec fn whole_module(tokens: Seq<Spanned<TokenView>>) -> Result<
    Seq<DefView>,
    ParseFailure,
> {
    match module(tokens, 0) {
        Err(failure) => Err(failure),
        Ok((defs, next)) => if next == tokens.len() {
            Ok(defs)
        } else {
            Err(
                ParseFailure {
                    kind: FailureKind::Fatal,
                    span: span_at(tokens, next),
                    expected: Expectation::EndOfInput,
                },
            )
        },
    }
}

/// What an executable rule must have done from the position `start` to
/// follow `parsed`: yield the same value and stand behind it, or fail in
/// the same way and stand at `start` again.
pub open spec fn follows<T>(
    parsed: Parsed<T>,
    start: int,
    result: Result<T, ParseFailure>,
    end: int,
) -> bool {
    match parsed {
        Ok((value, next)) => result == Ok::<T, ParseFailure>(value) && end == next,
        Err(failure) => result == Err::<T, ParseFailure>(failure) && end == start,
    }
}

/// A parsed value read at least one token, and not more than there are.
pub open spec fn has_advanced<T>(
    tokens: Seq<Spanned<TokenView>>,
    pos: int,
    parsed: Parsed<T>,
) -> bool {
    match parsed {
        Ok((_, next)) => advances(tokens, pos, next),
        Err(_) => true,
    }
}

/// An expression reads at least one token and stays within the tokens.
pub proof fn lemma_expr_advances(tokens: Seq<Spanned<TokenView>>, pos: int)
    ensures
        has_advanced(tokens, pos, expr(tokens, pos)),
    decreases tokens.len() - pos, 3int,
{
    lemma_atom_advances(tokens, pos);
    if let Ok((first, next)) = atom(tokens, pos) {
        lemma_applications_advance(tokens, next, first);
    }
}

/// A chain of applications does not go back and stays within the tokens.
pub proof fn lemma_applications_advance(
    tokens: Seq<Spanned<TokenView>>,
    pos: int,
    func: ExprView,
)
    requires
        0 <= pos <= tokens.len(),
    ensures
        match applications(tokens, pos, func) {
            Ok((_, next)) => pos <= next <= tokens.len(),
            Err(_) => true,
        },
    decreases tokens.len() - pos, 3int,
{
    lemma_atom_advances(tokens, pos);
    if let Ok((arg, next)) = atom(tokens, pos) {
        lemma_applications_advance(tokens, next, call_of(func, arg));
    }
}

/// An atom reads at least one token and stays within the tokens.
pub proof fn lemma_atom_advances(tokens: Seq<Spanned<TokenView>>, pos: int)
    ensures
        has_advanced(tokens, pos, atom(tokens, pos)),
    decreases tokens.len() - pos, 2int,
{
    if ident(tokens, pos) is Err {
        lemma_lambda_advances(tokens, pos);
        lemma_block_advances(tokens, pos);
    }
}

/// A lambda reads at least one token and stays within the tokens.
pub proof fn lemma_lambda_advances(tokens: Seq<Spanned<TokenView>>, pos: int)
    ensures
        has_advanced(tokens, pos, lambda(tokens, pos)),
    decreases tokens.len() - pos, 1int,
{
    if lambda(tokens, pos) is Ok {
        let after_arrow = after_newline(tokens, pos + 2) + 1;
        lemma_expr_advances(tokens, after_newline(tokens, after_arrow));
    }
}

/// A block reads at least one token and stays within the tokens.
pub proof fn lemma_block_advances(tokens: Seq<Spanned<TokenView>>, pos: int)
    ensures
        has_advanced(tokens, pos, block(tokens, pos)),
    decreases tokens.len() - pos, 1int,
{
    if block(tokens, pos) is Ok {
        let at_defs = after_newline(tokens, pos + 1);
        lemma_def_list_advances(tokens, at_defs);
        let at_value = def_list(tokens, at_defs).unwrap().1 + 1;
        lemma_expr_advances(tokens, at_value);
    }
}

/// A definition reads at least one token and stays within the tokens.
pub proof fn lemma_def_advances(tokens: Seq<Spanned<TokenView>>, pos: int)
    ensures
        has_advanced(tokens, pos, def(tokens, pos)),
    decreases tokens.len() - pos, 1int,
{
    if def(tokens, pos) is Ok {
        lemma_expr_advances(tokens, pos + 2);
    }
}

/// A list of definitions reads at least one token and stays within the
/// tokens.
pub proof fn lemma_def_list_advances(tokens: Seq<Spanned<TokenView>>, pos: int)
    ensures
        has_advanced(tokens, pos, def_list(tokens, pos)),
    decreases tokens.len() - pos, 2int,
{
    lemma_def_advances(tokens, pos);
    if let Ok((first, next)) = def(tokens, pos) {
        lemma_more_defs_advance(tokens, next, seq![first]);
    }
}

/// Further definitions do not go back and stay within the tokens.
pub proof fn lemma_more_defs_advance(
    tokens: Seq<Spanned<TokenView>>,
    pos: int,
    defs: Seq<DefView>,
)
    requires
        0 <= pos <= tokens.len(),
    ensures
        match more_defs(tokens, pos, defs) {
            Ok((_, next)) => pos <= next <= tokens.len(),
            Err(_) => true,
        },
    decreases tokens.len() - pos, 2int,
{
    if newline(tokens, pos) is Ok {
        lemma_def_advances(tokens, pos + 1);
        if let Ok((next_def, next)) = def(tokens, pos + 1) {
            lemma_more_defs_advance(tokens, next, defs.push(next_def));
        }
    }
}

} // verus!
