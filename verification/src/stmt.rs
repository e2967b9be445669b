use crate::expr::{expr_view, Expr, ExprModel};
use crate::token::{Token, TokenModel};
use vstd::prelude::*;

verus! {

/// A braced block: its statements run in a fresh innermost scope.
pub struct Block {
    pub statements: Vec<Stmt>,
}

/// An expression statement: evaluated for its effects, value discarded.
pub struct Expression {
    pub expression: Box<Expr>,
}

/// An `if`, with an optional `else` branch.
pub struct If {
    pub condition: Box<Expr>,
    pub then_branch: Box<Stmt>,
    pub else_branch: Option<Box<Stmt>>,
}

/// A `print` statement: writes the value's display form, one line per call.
pub struct Print {
    pub expression: Box<Expr>,
}

/// A `var` declaration; a missing initializer is already the literal nil.
pub struct Var {
    pub name: Token,
    pub initializer: Box<Expr>,
}

/// A `while` loop.
pub struct While {
    pub condition: Box<Expr>,
    pub body: Box<Stmt>,
}

/// A statement node.
pub enum Stmt {
    Block(Block),
    Expression(Expression),
    If(If),
    Print(Print),
    Var(Var),
    While(While),
}

/// The mathematical shape of a statement tree.
pub enum StmtModel {
    Block { statements: Seq<StmtModel> },
    Expression { expression: Box<ExprModel> },
    If { condition: Box<ExprModel>, then_branch: Box<StmtModel>, else_branch: Option<
        Box<StmtModel>,
    > },
    Print { expression: Box<ExprModel> },
    Var { name: TokenModel, initializer: Box<ExprModel> },
    While { condition: Box<ExprModel>, body: Box<StmtModel> },
}

/// The shape of a statement node.
pub open spec fn stmt_view(s: Stmt) -> StmtModel
    decreases s, 1int,
{
    match s {
        Stmt::Block(b) => StmtModel::Block { statements: stmts_view(b.statements@) },
        Stmt::Expression(e) => StmtModel::Expression {
            expression: Box::new(expr_view(*e.expression)),
        },
        Stmt::If(i) => StmtModel::If {
            condition: Box::new(expr_view(*i.condition)),
            then_branch: Box::new(stmt_view(*i.then_branch)),
            else_branch: match i.else_branch {
                Option::Some(e) => Option::Some(Box::new(stmt_view(*e))),
                Option::None => Option::None,
            },
        },
        Stmt::Print(p) => StmtModel::Print { expression: Box::new(expr_view(*p.expression)) },
        Stmt::Var(v) => StmtModel::Var {
            name: v.name@,
            initializer: Box::new(expr_view(*v.initializer)),
        },
        Stmt::While(w) => StmtModel::While {
            condition: Box::new(expr_view(*w.condition)),
            body: Box::new(stmt_view(*w.body)),
        },
    }
}

/// The shapes of a sequence of statements, in order.
pub open spec fn stmts_view(ss: Seq<Stmt>) -> Seq<StmtModel>
    decreases ss, 0int,
{
    if ss.len() == 0 {
        Seq::empty()
    } else {
        stmts_view(ss.drop_last()).push(stmt_view(ss.last()))
    }
}

impl View for Stmt {
    type V = StmtModel;

    open spec fn view(&self) -> StmtModel {
        stmt_view(*self)
    }
}

/// `stmts_view` is the element-wise view.
pub proof fn lemma_stmts_view_index(ss: Seq<Stmt>)
    ensures
        stmts_view(ss).len() == ss.len(),
        forall|i: int| 0 <= i < ss.len() ==> stmts_view(ss)[i] == stmt_view(#[trigger] ss[i]),
    decreases ss.len(),
{
    if ss.len() > 0 {
        lemma_stmts_view_index(ss.drop_last());
        assert forall|i: int| 0 <= i < ss.len() implies stmts_view(ss)[i] == stmt_view(
            #[trigger] ss[i],
        ) by {
            if i < ss.len() - 1 {
                assert(ss.drop_last()[i] == ss[i]);
                assert(stmts_view(ss)[i] == stmts_view(ss.drop_last())[i]);
            } else {
                assert(ss.last() == ss[i]);
                assert(stmts_view(ss)[i] == stmt_view(ss.last()));
            }
        }
    }
}

} // verus!
