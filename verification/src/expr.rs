use crate::token::{Literal, LiteralModel, Token, TokenModel};
use vstd::prelude::*;

verus! {

/// Assignment to a variable: the expression's value is the assigned value.
pub struct Assign {
    pub name: Token,
    pub value: Box<Expr>,
}

/// A binary operation; the operator token names it and locates it for
/// diagnostics.
pub struct Binary {
    pub left: Box<Expr>,
    pub operator: Token,
    pub right: Box<Expr>,
}

/// A parenthesized expression.
pub struct Grouping {
    pub expression: Box<Expr>,
}

/// A literal: a number, a string, a boolean or nil.
pub struct LiteralExpr {
    pub value: Literal,
}

/// A short-circuiting `and`/`or`.
pub struct Logical {
    pub left: Box<Expr>,
    pub operator: Token,
    pub right: Box<Expr>,
}

/// A prefix operation: `!` or `-`.
pub struct Unary {
    pub operator: Token,
    pub right: Box<Expr>,
}

/// A variable read.
pub struct Variable {
    pub name: Token,
}

/// An expression node. Every non-leaf node owns its children outright, so
/// the tree is acyclic by construction.
pub enum Expr {
    Assign(Assign),
    Binary(Binary),
    Grouping(Grouping),
    Literal(LiteralExpr),
    Logical(Logical),
    Unary(Unary),
    Variable(Variable),
}

/// The mathematical shape of an expression tree.
pub enum ExprModel {
    Assign { name: TokenModel, value: Box<ExprModel> },
    Binary { left: Box<ExprModel>, operator: TokenModel, right: Box<ExprModel> },
    Grouping { expression: Box<ExprModel> },
    Literal { lit: LiteralModel },
    Logical { left: Box<ExprModel>, operator: TokenModel, right: Box<ExprModel> },
    Unary { operator: TokenModel, right: Box<ExprModel> },
    Variable { name: TokenModel },
}

/// The shape of an expression node.
pub open spec fn expr_view(e: Expr) -> ExprModel
    decreases e,
{
    match e {
        Expr::Assign(a) => ExprModel::Assign {
            name: a.name@,
            value: Box::new(expr_view(*a.value)),
        },
        Expr::Binary(b) => ExprModel::Binary {
            left: Box::new(expr_view(*b.left)),
            operator: b.operator@,
            right: Box::new(expr_view(*b.right)),
        },
        Expr::Grouping(g) => ExprModel::Grouping { expression: Box::new(expr_view(*g.expression)) },
        Expr::Literal(l) => ExprModel::Literal { lit: l.value@ },
        Expr::Logical(l) => ExprModel::Logical {
            left: Box::new(expr_view(*l.left)),
            operator: l.operator@,
            right: Box::new(expr_view(*l.right)),
        },
        Expr::Unary(u) => ExprModel::Unary {
            operator: u.operator@,
            right: Box::new(expr_view(*u.right)),
        },
        Expr::Variable(v) => ExprModel::Variable { name: v.name@ },
    }
}

impl View for Expr {
    type V = ExprModel;

    open spec fn view(&self) -> ExprModel {
        expr_view(*self)
    }
}

} // verus!
