//! The syntax tree, and the mathematical model of each of its nodes.

use vstd::prelude::*;
use crate::span::Spanned;

verus! {

/// An expression.
#[derive(Debug, PartialEq, Eq)]
pub enum Expr<'i> {
    /// A name.
    Variable(Spanned<&'i str>),
    Lambda(Lambda<'i>),
    Block(Block<'i>),
    Call(Call<'i>),
}

/// A function of one parameter.
#[derive(Debug, PartialEq, Eq)]
pub struct Lambda<'i> {
    pub param: Spanned<&'i str>,
    pub body: Box<Expr<'i>>,
}

/// Local definitions in parentheses, and the expression that is the block's
/// value, if it has one.
#[derive(Debug, PartialEq, Eq)]
pub struct Block<'i> {
    pub defs: DefList<'i>,
    pub expr: Option<Box<Expr<'i>>>,
}

/// A function applied to an argument.
#[derive(Debug, PartialEq, Eq)]
pub struct Call<'i> {
    pub func: Box<Expr<'i>>,
    pub arg: Box<Expr<'i>>,
}

/// A name bound to an expression.
#[derive(Debug, PartialEq, Eq)]
pub struct Def<'i> {
    pub ident: Spanned<&'i str>,
    pub expr: Expr<'i>,
}

/// Definitions in the order of the source. Names may repeat.
#[derive(Debug, PartialEq, Eq)]
pub struct DefList<'i> {
    pub defs: Vec<Def<'i>>,
}

/// A source file: its top-level definitions.
#[derive(Debug, PartialEq, Eq)]
pub struct Module<'i> {
    defs: DefList<'i>,
}

/// What an [`Expr`] stands for.
pub enum ExprView {
    Variable(Spanned<Seq<char>>),
    Lambda(LambdaView),
    Block(BlockView),
    Call(CallView),
}

/// What a [`Lambda`] stands for.
pub struct LambdaView {
    pub param: Spanned<Seq<char>>,
    pub body: Box<ExprView>,
}

/// What a [`Block`] stands for.
pub struct BlockView {
    pub defs: Seq<DefView>,
    pub expr: Option<Box<ExprView>>,
}

/// What a [`Call`] stands for.
pub struct CallView {
    pub func: Box<ExprView>,
    pub arg: Box<ExprView>,
}

/// What a [`Def`] stands for.
pub struct DefView {
    pub ident: Spanned<Seq<char>>,
    pub expr: ExprView,
}

/// The model of an expression.
pub open spec fn expr_view(expr: Expr<'_>) -> ExprView
    decreases expr,
{
    match expr {
        Expr::Variable(name) => ExprView::Variable(name@),
        Expr::Lambda(lambda) => ExprView::Lambda(
            LambdaView { param: lambda.param@, body: Box::new(expr_view(*lambda.body)) },
        ),
        Expr::Block(block) => ExprView::Block(
            BlockView {
                defs: defs_view(block.defs.defs@),
                expr: match block.expr {
                    Some(value) => Some(Box::new(expr_view(*value))),
                    None => None,
                },
            },
        ),
        Expr::Call(call) => ExprView::Call(
            CallView {
                func: Box::new(expr_view(*call.func)),
                arg: Box::new(expr_view(*call.arg)),
            },
        ),
    }
}

/// The model of a definition.
pub open spec fn def_view(def: Def<'_>) -> DefView
    decreases def,
{
    DefView { ident: def.ident@, expr: expr_view(def.expr) }
}

/// The models of a sequence of definitions, in the same order.
pub open spec fn defs_view(defs: Seq<Def<'_>>) -> Seq<DefView>
    decreases defs,
{
    if defs.len() == 0 {
        Seq::empty()
    } else {
        defs_view(defs.drop_last()).push(def_view(defs.last()))
    }
}

impl<'i> View for Expr<'i> {
    type V = ExprView;

    open spec fn view(&self) -> ExprView {
        expr_view(*self)
    }
}

impl<'i> View for Lambda<'i> {
    type V = LambdaView;

    open spec fn view(&self) -> LambdaView {
        LambdaView { param: self.param@, body: Box::new(expr_view(*self.body)) }
    }
}

impl<'i> View for Block<'i> {
    type V = BlockView;

    open spec fn view(&self) -> BlockView {
        BlockView {
            defs: defs_view(self.defs.defs@),
            expr: match self.expr {
                Some(value) => Some(Box::new(expr_view(*value))),
                None => None,
            },
        }
    }
}

impl<'i> View for Call<'i> {
    type V = CallView;

    open spec fn view(&self) -> CallView {
        CallView { func: Box::new(expr_view(*self.func)), arg: Box::new(expr_view(*self.arg)) }
    }
}

impl<'i> View for Def<'i> {
    type V = DefView;

    open spec fn view(&self) -> DefView {
        def_view(*self)
    }
}

impl<'i> View for DefList<'i> {
    type V = Seq<DefView>;

    open spec fn view(&self) -> Seq<DefView> {
        defs_view(self.defs@)
    }
}

impl<'i> View for Module<'i> {
    type V = Seq<DefView>;

    closed spec fn view(&self) -> Seq<DefView> {
        defs_view(self.defs.defs@)
    }
}

impl<'i> Module<'i> {
    /// A module of the definitions `defs`.
    pub fn new(defs: DefList<'i>) -> (module: Self)
        ensures
            module@ == defs@,
    {
        Module { defs }
    }

    /// The top-level definitions.
    pub fn defs(&self) -> (defs: &DefList<'i>)
        ensures
            defs@ == self@,
    {
        &self.defs
    }
}

/// The models of a sequence of definitions have its length, and the model of
/// each definition stands where the definition does.
pub proof fn lemma_defs_view(defs: Seq<Def<'_>>)
    ensures
        defs_view(defs).len() == defs.len(),
        forall|i: int| 0 <= i < defs.len() ==> (#[trigger] defs_view(defs)[i]) == def_view(defs[i]),
    decreases defs.len(),
{
    if defs.len() > 0 {
        lemma_defs_view(defs.drop_last());
    }
}

} // verus!
