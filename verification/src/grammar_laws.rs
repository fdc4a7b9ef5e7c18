//! Laws of the grammar, proved from the rules.

use vstd::prelude::*;
use crate::ast::{DefView, ExprView};
use crate::failure::{relabeled, Expectation, FailureKind, ParseFailure};
use crate::grammar::{
    after_newline, applications, atom, block, block_end, call, call_of, def, def_list, expr,
    ident, lambda, lemma_atom_advances, lemma_def_advances, lemma_def_list_advances, module,
    more_defs, newline, symbol, whole_module,
};
use crate::span::Spanned;
use crate::stream::span_at;
use crate::token::{Symbol, TokenView};

verus! {

/// Application associates to the left: three atoms in a row, with no atom
/// behind them, are the first applied to the second, and that applied to the
/// third.
pub proof fn lemma_application_associates_left(
    tokens: Seq<Spanned<TokenView>>,
    pos: int,
    x: ExprView,
    after_x: int,
    y: ExprView,
    after_y: int,
    z: ExprView,
    after_z: int,
)
    requires
        atom(tokens, pos) == Ok::<_, ParseFailure>((x, after_x)),
        atom(tokens, after_x) == Ok::<_, ParseFailure>((y, after_y)),
        atom(tokens, after_y) == Ok::<_, ParseFailure>((z, after_z)),
        atom(tokens, after_z) is Err,
        atom(tokens, after_z)->Err_0.kind == FailureKind::Recoverable,
    ensures
        expr(tokens, pos) == Ok::<_, ParseFailure>((call_of(call_of(x, y), z), after_z)),
{
    lemma_atom_advances(tokens, pos);
    lemma_atom_advances(tokens, after_x);
    lemma_atom_advances(tokens, after_y);
    let xy = call_of(x, y);
    let xyz = call_of(xy, z);
    assert(applications(tokens, after_y, xy) == applications(tokens, after_z, xyz));
}

/// An expression is its first atom and the chain of applications behind it.
pub proof fn lemma_expr_is_atom_then_applications(tokens: Seq<Spanned<TokenView>>, pos: int)
    ensures
        expr(tokens, pos) == match atom(tokens, pos) {
            Ok((first, next)) => applications(tokens, next, first),
            Err(failure) => Err(failure),
        },
{
    lemma_atom_advances(tokens, pos);
}

/// One step of a chain of applications: an atom behind `func` is its
/// argument, and the chain goes on with the call as the function.
pub proof fn lemma_application_step(
    tokens: Seq<Spanned<TokenView>>,
    pos: int,
    func: ExprView,
    arg: ExprView,
    next: int,
)
    requires
        atom(tokens, pos) == Ok::<_, ParseFailure>((arg, next)),
    ensures
        applications(tokens, pos, func) == applications(tokens, next, call_of(func, arg)),
{
    lemma_atom_advances(tokens, pos);
}

/// A `\` with no parameter behind it is a fatal failure at what follows the
/// `\`, of the lambda and of the atom and the expression that start there.
pub proof fn lemma_missing_parameter_is_fatal(tokens: Seq<Spanned<TokenView>>, pos: int)
    requires
        symbol(tokens, pos, Symbol::Lambda) is Ok,
        ident(tokens, pos + 1) is Err,
    ensures
        lambda(tokens, pos) is Err && lambda(tokens, pos)->Err_0 == (ParseFailure {
            kind: FailureKind::Fatal,
            span: span_at(tokens, pos + 1),
            expected: Expectation::Identifier,
        }),
        atom(tokens, pos) is Err && atom(tokens, pos)->Err_0 == lambda(tokens, pos)->Err_0,
        expr(tokens, pos) is Err && expr(tokens, pos)->Err_0 == lambda(tokens, pos)->Err_0,
{
}

/// A fatal failure of an atom is the failure of the chain of applications
/// that has come to it: the chain does not end there in silence.
pub proof fn lemma_fatal_atom_fails_applications(
    tokens: Seq<Spanned<TokenView>>,
    pos: int,
    func: ExprView,
)
    requires
        atom(tokens, pos) is Err,
        atom(tokens, pos)->Err_0.kind == FailureKind::Fatal,
    ensures
        applications(tokens, pos, func) is Err,
        applications(tokens, pos, func)->Err_0 == atom(tokens, pos)->Err_0,
{
}

/// A fatal failure of the expression of a definition is, unchanged, the
/// failure of the definition, of the list of definitions that starts with
/// it, and of the module.
pub proof fn lemma_fatal_expr_fails_module(tokens: Seq<Spanned<TokenView>>, pos: int)
    requires
        ident(tokens, pos) is Ok,
        symbol(tokens, pos + 1, Symbol::Define) is Ok,
        expr(tokens, pos + 2) is Err,
        expr(tokens, pos + 2)->Err_0.kind == FailureKind::Fatal,
    ensures
        def(tokens, pos) is Err && def(tokens, pos)->Err_0 == expr(tokens, pos + 2)->Err_0,
        def_list(tokens, pos) is Err && def_list(tokens, pos)->Err_0 == expr(
            tokens,
            pos + 2,
        )->Err_0,
        module(tokens, pos) is Err && module(tokens, pos)->Err_0 == expr(tokens, pos + 2)->Err_0,
        pos == 0 ==> whole_module(tokens) is Err && whole_module(tokens)->Err_0 == expr(
            tokens,
            pos + 2,
        )->Err_0,
{
}

/// A fatal failure of a definition behind a separator is, unchanged, the
/// failure of the list of definitions that has come to it.
pub proof fn lemma_fatal_def_fails_more_defs(
    tokens: Seq<Spanned<TokenView>>,
    pos: int,
    defs: Seq<DefView>,
)
    requires
        newline(tokens, pos) is Ok,
        def(tokens, pos + 1) is Err,
        def(tokens, pos + 1)->Err_0.kind == FailureKind::Fatal,
    ensures
        more_defs(tokens, pos, defs) is Err,
        more_defs(tokens, pos, defs)->Err_0 == def(tokens, pos + 1)->Err_0,
{
}

/// Where a chain of applications ends, no atom starts.
pub proof fn lemma_applications_end_at_no_atom(
    tokens: Seq<Spanned<TokenView>>,
    pos: int,
    func: ExprView,
)
    requires
        applications(tokens, pos, func) is Ok,
    ensures
        atom(tokens, applications(tokens, pos, func)->Ok_0.1) is Err,
    decreases tokens.len() - pos,
{
    lemma_atom_advances(tokens, pos);
    if let Ok((arg, next)) = atom(tokens, pos) {
        lemma_applications_end_at_no_atom(tokens, next, call_of(func, arg));
    }
}

/// An expression takes every atom that follows it, so that no second
/// expression starts behind one: a function and an argument written as two
/// expressions in a row never parse.
pub proof fn lemma_call_never_parses(tokens: Seq<Spanned<TokenView>>, pos: int)
    ensures
        call(tokens, pos) is Err,
{
    lemma_atom_advances(tokens, pos);
    if expr(tokens, pos) is Ok {
        let (first, next) = atom(tokens, pos)->Ok_0;
        lemma_applications_end_at_no_atom(tokens, next, first);
    }
}

/// A block whose definitions and the separator behind them are read goes on
/// with its value, if an expression stands there, and then with its end.
pub proof fn lemma_block_is_defs_then_value(
    tokens: Seq<Spanned<TokenView>>,
    pos: int,
    defs: Seq<DefView>,
    after_defs: int,
)
    requires
        symbol(tokens, pos, Symbol::OpenParen) is Ok,
        def_list(tokens, after_newline(tokens, pos + 1)) == Ok::<_, ParseFailure>(
            (defs, after_defs),
        ),
        newline(tokens, after_defs) is Ok,
    ensures
        block(tokens, pos) == match expr(tokens, after_defs + 1) {
            Ok((value, after_value)) => block_end(
                tokens,
                after_value,
                defs,
                Some(Box::new(value)),
            ),
            Err(failure) => if failure.kind == FailureKind::Fatal {
                Err(failure)
            } else {
                block_end(tokens, after_defs + 1, defs, None)
            },
        },
{
    lemma_def_list_advances(tokens, after_newline(tokens, pos + 1));
}

/// A list of definitions is its first definition and the further
/// definitions behind it.
pub proof fn lemma_def_list_is_def_then_more(tokens: Seq<Spanned<TokenView>>, pos: int)
    ensures
        def_list(tokens, pos) == match def(tokens, pos) {
            Ok((first, next)) => more_defs(tokens, next, seq![first]),
            Err(failure) => Err(relabeled(failure, Expectation::DefList)),
        },
{
    lemma_def_advances(tokens, pos);
}

/// One step of a list of definitions: a definition behind a separator is
/// put at the end of those before it, and the list goes on behind it.
pub proof fn lemma_more_defs_step(
    tokens: Seq<Spanned<TokenView>>,
    pos: int,
    defs: Seq<DefView>,
    next_def: DefView,
    next: int,
)
    requires
        newline(tokens, pos) is Ok,
        def(tokens, pos + 1) == Ok::<_, ParseFailure>((next_def, next)),
    ensures
        more_defs(tokens, pos, defs) == more_defs(tokens, next, defs.push(next_def)),
{
    lemma_def_advances(tokens, pos + 1);
}

/// Further definitions leave those before them as they are: the list that
/// comes out starts with `defs`, in the same order, whatever their names.
pub proof fn lemma_more_defs_keeps_order(
    tokens: Seq<Spanned<TokenView>>,
    pos: int,
    defs: Seq<DefView>,
)
    requires
        more_defs(tokens, pos, defs) is Ok,
    ensures
        defs.is_prefix_of(more_defs(tokens, pos, defs)->Ok_0.0),
    decreases tokens.len() - pos,
{
    if newline(tokens, pos) is Ok {
        lemma_def_advances(tokens, pos + 1);
        if let Ok((next_def, next)) = def(tokens, pos + 1) {
            lemma_more_defs_keeps_order(tokens, next, defs.push(next_def));
            let all = more_defs(tokens, pos, defs)->Ok_0.0;
            let longer = defs.push(next_def);
            assert(defs =~= all.subrange(0, defs.len() as int)) by {
                assert forall|i: int| 0 <= i < defs.len() implies defs[i] == all[i] by {
                    assert(all.subrange(0, longer.len() as int)[i] == all[i]);
                }
            }
        }
    }
}

} // verus!
