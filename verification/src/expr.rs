//! The syntax tree. Every node owns its children.

use crate::literal::{Literal, Value};
use vstd::prelude::*;

verus! {

/// A prefix operator.
#[derive(Debug, Clone, Copy, PartialEq, Eq, Structural)]
pub enum UnaryOp {
    Neg,
    Not,
}

/// An infix operator.
#[derive(Debug, Clone, Copy, PartialEq, Eq, Structural)]
pub enum BinaryOp {
    Equal,
    NotEqual,
    Greater,
    GreaterEqual,
    Less,
    LessEqual,
    Add,
    Sub,
    Multiply,
    Divide,
}

/// An expression.
#[derive(Debug)]
pub enum Expr {
    Binary(Box<Expr>, BinaryOp, Box<Expr>),
    Unary(UnaryOp, Box<Expr>),
    Literal(Literal),
    Group(Box<Expr>),
    Assign(String, Box<Expr>),
    Var(String),
}

/// A statement.
#[derive(Debug)]
pub enum Stmt {
    Expr(Expr),
    Print(Expr),
    Var { name: String, initializer: Expr, mutable: bool },
    Block(Vec<Stmt>),
}

/// The mathematical model of an [`Expr`].
pub enum ExprView {
    Binary(Box<ExprView>, BinaryOp, Box<ExprView>),
    Unary(UnaryOp, Box<ExprView>),
    Literal(Value),
    Group(Box<ExprView>),
    Assign(Seq<char>, Box<ExprView>),
    Var(Seq<char>),
}

/// The mathematical model of a [`Stmt`].
pub enum StmtView {
    Expr(ExprView),
    Print(ExprView),
    Var { name: Seq<char>, initializer: ExprView, mutable: bool },
    Block(Seq<StmtView>),
}

/// The model of an expression.
pub open spec fn expr_view(e: Expr) -> ExprView
    decreases e,
{
    match e {
        Expr::Binary(l, op, r) => ExprView::Binary(
            Box::new(expr_view(*l)),
            op,
            Box::new(expr_view(*r)),
        ),
        Expr::Unary(op, r) => ExprView::Unary(op, Box::new(expr_view(*r))),
        Expr::Literal(l) => ExprView::Literal(l@),
        Expr::Group(inner) => ExprView::Group(Box::new(expr_view(*inner))),
        Expr::Assign(name, value) => ExprView::Assign(name@, Box::new(expr_view(*value))),
        Expr::Var(name) => ExprView::Var(name@),
    }
}

/// The model of a statement.
pub open spec fn stmt_view(s: Stmt) -> StmtView
    decreases s, 0nat,
{
    match s {
        Stmt::Expr(e) => StmtView::Expr(expr_view(e)),
        Stmt::Print(e) => StmtView::Print(expr_view(e)),
        Stmt::Var { name, initializer, mutable } => StmtView::Var {
            name: name@,
            initializer: expr_view(initializer),
            mutable,
        },
        Stmt::Block(stmts) => StmtView::Block(stmt_views(stmts@)),
    }
}

/// The models of a sequence of statements, in order.
pub open spec fn stmt_views(stmts: Seq<Stmt>) -> Seq<StmtView>
    decreases stmts, 1nat,
{
    if stmts.len() == 0 {
        Seq::<StmtView>::empty()
    } else {
        stmt_views(stmts.drop_last()).push(stmt_view(stmts.last()))
    }
}

impl View for Expr {
    type V = ExprView;

    open spec fn view(&self) -> ExprView {
        expr_view(*self)
    }
}

impl View for Stmt {
    type V = StmtView;

    open spec fn view(&self) -> StmtView {
        stmt_view(*self)
    }
}

/// Appending a statement appends its model.
pub proof fn lemma_stmt_views_push(stmts: Seq<Stmt>, stmt: Stmt)
    ensures
        stmt_views(stmts.push(stmt)) == stmt_views(stmts).push(stmt@),
{
    assert(stmts.push(stmt).drop_last() == stmts);
}

/// The models of statements are as many as the statements, each the model
/// of the statement at its place.
pub proof fn lemma_stmt_views_index(stmts: Seq<Stmt>, i: int)
    requires
        0 <= i < stmts.len(),
    ensures
        stmt_views(stmts).len() == stmts.len(),
        stmt_views(stmts)[i] == stmts[i]@,
    decreases stmts.len(),
{
    lemma_stmt_views_len(stmts);
    if i < stmts.len() - 1 {
        lemma_stmt_views_len(stmts.drop_last());
        lemma_stmt_views_index(stmts.drop_last(), i);
    } else {
        lemma_stmt_views_len(stmts.drop_last());
    }
}

/// There are as many models as statements.
pub proof fn lemma_stmt_views_len(stmts: Seq<Stmt>)
    ensures
        stmt_views(stmts).len() == stmts.len(),
    decreases stmts.len(),
{
    if stmts.len() > 0 {
        lemma_stmt_views_len(stmts.drop_last());
    }
}

} // verus!
