//! A diagnostic rendering of an expression tree as a fully parenthesized
//! prefix form, such as `(* (- 123) (group 45.67))`: each operator node
//! reuses its operator's lexeme, and each literal prints its value.

use crate::expr::{Expr, ExprModel};
use crate::num::{fmt_bits, num_fmt};
use crate::token::{Literal, LiteralModel};
use vstd::prelude::*;
use vstd::string::StringExecFns;

verus! {

/// The printed form of a literal: numbers in the host's default formatting,
/// strings as their text, and the keyword literals by name.
pub open spec fn literal_print(lit: LiteralModel) -> Seq<char> {
    match lit {
        LiteralModel::Number(bits) => fmt_bits(bits),
        LiteralModel::Str(s) => s,
        LiteralModel::True => "True"@,
        LiteralModel::False => "False"@,
        LiteralModel::Nil => "Nil"@,
    }
}

/// The fully parenthesized prefix form of an expression: operands follow
/// their operator's lexeme inside one pair of parentheses, a grouping is
/// labelled `group`, an assignment `=`, and a variable prints its name.
pub open spec fn print_view(e: ExprModel) -> Seq<char>
    decreases e,
{
    match e {
        ExprModel::Assign { name, value } => "(= "@ + name.lexeme + " "@ + print_view(*value)
            + ")"@,
        ExprModel::Binary { left, operator, right } => "("@ + operator.lexeme + " "@ + print_view(
            *left,
        ) + " "@ + print_view(*right) + ")"@,
        ExprModel::Grouping { expression } => "(group "@ + print_view(*expression) + ")"@,
        ExprModel::Literal { lit } => literal_print(lit),
        ExprModel::Logical { left, operator, right } => "("@ + operator.lexeme + " "@ + print_view(
            *left,
        ) + " "@ + print_view(*right) + ")"@,
        ExprModel::Unary { operator, right } => "("@ + operator.lexeme + " "@ + print_view(*right)
            + ")"@,
        ExprModel::Variable { name } => name.lexeme,
    }
}

fn literal_text(lit: &Literal) -> (r: String)
    ensures
        r@ == literal_print(lit@),
{
    match lit {
        Literal::Number(bits) => num_fmt(*bits),
        Literal::Str(s) => s.clone(),
        Literal::True => "True".to_owned(),
        Literal::False => "False".to_owned(),
        Literal::Nil => "Nil".to_owned(),
    }
}

/// Render an expression in the exact parenthesized prefix form
/// `print_view` describes; as a pure function of the tree, repeated calls
/// print the same text.
pub fn print(expr: &Expr) -> (r: String)
    ensures
        r@ == print_view(expr@),
    decreases *expr,
{
    match expr {
        Expr::Assign(e) => {
            let mut out = "(= ".to_owned();
            out.append(e.name.lexeme.as_str());
            out.append(" ");
            let value = print(&e.value);
            out.append(value.as_str());
            out.append(")");
            out
        },
        Expr::Binary(e) => {
            let mut out = "(".to_owned();
            out.append(e.operator.lexeme.as_str());
            out.append(" ");
            let left = print(&e.left);
            out.append(left.as_str());
            out.append(" ");
            let right = print(&e.right);
            out.append(right.as_str());
            out.append(")");
            out
        },
        Expr::Grouping(e) => {
            let mut out = "(group ".to_owned();
            let inner = print(&e.expression);
            out.append(inner.as_str());
            out.append(")");
            out
        },
        Expr::Literal(e) => literal_text(&e.value),
        Expr::Logical(e) => {
            let mut out = "(".to_owned();
            out.append(e.operator.lexeme.as_str());
            out.append(" ");
            let left = print(&e.left);
            out.append(left.as_str());
            out.append(" ");
            let right = print(&e.right);
            out.append(right.as_str());
            out.append(")");
            out
        },
        Expr::Unary(e) => {
            let mut out = "(".to_owned();
            out.append(e.operator.lexeme.as_str());
            out.append(" ");
            let right = print(&e.right);
            out.append(right.as_str());
            out.append(")");
            out
        },
        Expr::Variable(e) => e.name.lexeme.clone(),
    }
}

} // verus!
