use crate::error::{diagnostics_view, parse_error_location, DiagnosticModel, SimpleErrorHandler};
use crate::expr::{
    Assign, Binary, Expr, ExprModel, Grouping, LiteralExpr, Logical, Unary, Variable,
};
use crate::stmt::{lemma_stmts_view_index, stmts_view, Block, Expression, If, Print, Stmt,
    StmtModel, Var, While};
use crate::token::{tokens_view, Literal, LiteralModel, Token, TokenModel, TokenType};
use vstd::prelude::*;

verus! {

/// A syntax error: the grammar was violated somewhere. The offending token
/// and message go straight to the error handler; this value only unwinds
/// the descent so the parser can synchronize.
pub struct ParserError {}

/// Well-formed token input: non-empty, terminated by the end-of-input
/// marker, and every number or string token carries its literal.
pub open spec fn toks_wf(toks: Seq<TokenModel>) -> bool {
    &&& toks.len() >= 1
    &&& toks[toks.len() - 1].token_type == TokenType::EOF
    &&& forall|i: int|
        0 <= i < toks.len() ==> match #[trigger] toks[i].token_type {
            TokenType::Number => toks[i].literal matches Option::Some(LiteralModel::Number(_)),
            TokenType::Str => toks[i].literal matches Option::Some(LiteralModel::Str(_)),
            _ => true,
        }
}

/// The token at `pos`, or the final end-of-input marker when `pos` is out
/// of range.
pub open spec fn spec_peek(toks: Seq<TokenModel>, pos: int) -> TokenModel {
    if 0 <= pos < toks.len() {
        toks[pos]
    } else {
        toks[toks.len() - 1]
    }
}

/// Whether the parser stands at the end of input (an out-of-range
/// position counts as the end).
pub open spec fn spec_is_at_end(toks: Seq<TokenModel>, pos: int) -> bool {
    !(0 <= pos < toks.len()) || toks[pos].token_type == TokenType::EOF
}

/// Whether the next token has kind `tt` (never true at the end of input).
pub open spec fn spec_check(toks: Seq<TokenModel>, pos: int, tt: TokenType) -> bool {
    !spec_is_at_end(toks, pos) && toks[pos].token_type == tt
}

/// How many tokens are left at `pos`: the termination measure of the
/// descent.
pub open spec fn remaining(toks: Seq<TokenModel>, pos: int) -> nat {
    if pos < toks.len() {
        (toks.len() - pos) as nat
    } else {
        0
    }
}

/// `p`, but always strictly past `q`: parsing progresses through at least
/// one token between the two, so this is `p` itself wherever it matters.
pub open spec fn past(p: int, q: int) -> int {
    if p > q {
        p
    } else {
        q + 1
    }
}

/// The outcome of parsing one expression: the node and the position after
/// it, or the offending token and message of a syntax error and the
/// position where parsing stopped.
pub enum ExprParse {
    Done { pos: int, expr: ExprModel },
    Fault { pos: int, token: TokenModel, message: Seq<char> },
}

/// Primary expressions: literals, grouping, identifiers. Anything else is
/// the error `Expect expression`.
#[verifier::opaque]
pub open spec fn spec_primary(toks: Seq<TokenModel>, pos: int) -> ExprParse
    decreases remaining(toks, pos), 0int,
{
    if spec_check(toks, pos, TokenType::False) {
        ExprParse::Done {
            pos: pos + 1,
            expr: ExprModel::Literal { lit: LiteralModel::False },
        }
    } else if spec_check(toks, pos, TokenType::True) {
        ExprParse::Done { pos: pos + 1, expr: ExprModel::Literal { lit: LiteralModel::True } }
    } else if spec_check(toks, pos, TokenType::Nil) {
        ExprParse::Done { pos: pos + 1, expr: ExprModel::Literal { lit: LiteralModel::Nil } }
    } else if spec_check(toks, pos, TokenType::Number) || spec_check(toks, pos, TokenType::Str) {
        ExprParse::Done {
            pos: pos + 1,
            expr: ExprModel::Literal {
                lit: match toks[pos].literal {
                    Option::Some(l) => l,
                    Option::None => LiteralModel::Nil,
                },
            },
        }
    } else if spec_check(toks, pos, TokenType::Identifier) {
        ExprParse::Done { pos: pos + 1, expr: ExprModel::Variable { name: toks[pos] } }
    } else if spec_check(toks, pos, TokenType::LeftParen) {
        match spec_expression(toks, pos + 1) {
            ExprParse::Done { pos: p, expr } => if spec_check(toks, p, TokenType::RightParen) {
                ExprParse::Done {
                    pos: p + 1,
                    expr: ExprModel::Grouping { expression: Box::new(expr) },
                }
            } else {
                ExprParse::Fault {
                    pos: p,
                    token: spec_peek(toks, p),
                    message: "Expect ')' after expression."@,
                }
            },
            fault => fault,
        }
    } else {
        ExprParse::Fault {
            pos,
            token: spec_peek(toks, pos),
            message: "Expect expression"@,
        }
    }
}

/// Unary expressions: `!` and `-` bind tighter than any binary operator
/// and nest.
#[verifier::opaque]
pub open spec fn spec_unary(toks: Seq<TokenModel>, pos: int) -> ExprParse
    decreases remaining(toks, pos), 1int,
{
    if spec_check(toks, pos, TokenType::Bang) || spec_check(toks, pos, TokenType::Minus) {
        match spec_unary(toks, pos + 1) {
            ExprParse::Done { pos: p, expr } => ExprParse::Done {
                pos: p,
                expr: ExprModel::Unary { operator: toks[pos], right: Box::new(expr) },
            },
            fault => fault,
        }
    } else {
        spec_primary(toks, pos)
    }
}

/// The left-leaning fold of `*` and `/` onto `left`.
pub open spec fn spec_factor_tail(toks: Seq<TokenModel>, pos: int, left: ExprModel) -> ExprParse
    decreases remaining(toks, pos), 0int,
{
    if spec_check(toks, pos, TokenType::Slash) || spec_check(toks, pos, TokenType::Star) {
        match spec_unary(toks, pos + 1) {
            ExprParse::Done { pos: p, expr: right } => spec_factor_tail(
                toks,
                past(p, pos),
                ExprModel::Binary {
                    left: Box::new(left),
                    operator: toks[pos],
                    right: Box::new(right),
                },
            ),
            fault => fault,
        }
    } else {
        ExprParse::Done { pos, expr: left }
    }
}

/// Multiplication and division, left-associative.
#[verifier::opaque]
pub open spec fn spec_factor(toks: Seq<TokenModel>, pos: int) -> ExprParse
    decreases remaining(toks, pos), 2int,
{
    match spec_unary(toks, pos) {
        ExprParse::Done { pos: p, expr } => spec_factor_tail(toks, past(p, pos), expr),
        fault => fault,
    }
}

/// The left-leaning fold of `+` and `-` onto `left`.
pub open spec fn spec_term_tail(toks: Seq<TokenModel>, pos: int, left: ExprModel) -> ExprParse
    decreases remaining(toks, pos), 0int,
{
    if spec_check(toks, pos, TokenType::Minus) || spec_check(toks, pos, TokenType::Plus) {
        match spec_factor(toks, pos + 1) {
            ExprParse::Done { pos: p, expr: right } => spec_term_tail(
                toks,
                past(p, pos),
                ExprModel::Binary {
                    left: Box::new(left),
                    operator: toks[pos],
                    right: Box::new(right),
                },
            ),
            fault => fault,
        }
    } else {
        ExprParse::Done { pos, expr: left }
    }
}

/// Addition and subtraction, left-associative.
#[verifier::opaque]
pub open spec fn spec_term(toks: Seq<TokenModel>, pos: int) -> ExprParse
    decreases remaining(toks, pos), 3int,
{
    match spec_factor(toks, pos) {
        ExprParse::Done { pos: p, expr } => spec_term_tail(toks, past(p, pos), expr),
        fault => fault,
    }
}

/// Whether the token at `pos` is a comparison operator.
pub open spec fn spec_is_comparison(toks: Seq<TokenModel>, pos: int) -> bool {
    ||| spec_check(toks, pos, TokenType::Greater)
    ||| spec_check(toks, pos, TokenType::GreaterEqual)
    ||| spec_check(toks, pos, TokenType::Less)
    ||| spec_check(toks, pos, TokenType::LessEqual)
}

/// The left-leaning fold of the comparison operators onto `left`.
pub open spec fn spec_comparison_tail(toks: Seq<TokenModel>, pos: int, left: ExprModel) -> ExprParse
    decreases remaining(toks, pos), 0int,
{
    if spec_is_comparison(toks, pos) {
        match spec_term(toks, pos + 1) {
            ExprParse::Done { pos: p, expr: right } => spec_comparison_tail(
                toks,
                past(p, pos),
                ExprModel::Binary {
                    left: Box::new(left),
                    operator: toks[pos],
                    right: Box::new(right),
                },
            ),
            fault => fault,
        }
    } else {
        ExprParse::Done { pos, expr: left }
    }
}

/// The comparison operators, left-associative.
#[verifier::opaque]
pub open spec fn spec_comparison(toks: Seq<TokenModel>, pos: int) -> ExprParse
    decreases remaining(toks, pos), 4int,
{
    match spec_term(toks, pos) {
        ExprParse::Done { pos: p, expr } => spec_comparison_tail(toks, past(p, pos), expr),
        fault => fault,
    }
}

/// The left-leaning fold of `==` and `!=` onto `left`.
pub open spec fn spec_equality_tail(toks: Seq<TokenModel>, pos: int, left: ExprModel) -> ExprParse
    decreases remaining(toks, pos), 0int,
{
    if spec_check(toks, pos, TokenType::BangEqual) || spec_check(toks, pos, TokenType::EqualEqual) {
        match spec_comparison(toks, pos + 1) {
            ExprParse::Done { pos: p, expr: right } => spec_equality_tail(
                toks,
                past(p, pos),
                ExprModel::Binary {
                    left: Box::new(left),
                    operator: toks[pos],
                    right: Box::new(right),
                },
            ),
            fault => fault,
        }
    } else {
        ExprParse::Done { pos, expr: left }
    }
}

/// Equality and inequality, left-associative.
#[verifier::opaque]
pub open spec fn spec_equality(toks: Seq<TokenModel>, pos: int) -> ExprParse
    decreases remaining(toks, pos), 5int,
{
    match spec_comparison(toks, pos) {
        ExprParse::Done { pos: p, expr } => spec_equality_tail(toks, past(p, pos), expr),
        fault => fault,
    }
}

/// The left-leaning fold of `and` onto `left`.
pub open spec fn spec_and_tail(toks: Seq<TokenModel>, pos: int, left: ExprModel) -> ExprParse
    decreases remaining(toks, pos), 0int,
{
    if spec_check(toks, pos, TokenType::And) {
        match spec_equality(toks, pos + 1) {
            ExprParse::Done { pos: p, expr: right } => spec_and_tail(
                toks,
                past(p, pos),
                ExprModel::Logical {
                    left: Box::new(left),
                    operator: toks[pos],
                    right: Box::new(right),
                },
            ),
            fault => fault,
        }
    } else {
        ExprParse::Done { pos, expr: left }
    }
}

/// Logical `and`, binding tighter than `or`.
#[verifier::opaque]
pub open spec fn spec_and(toks: Seq<TokenModel>, pos: int) -> ExprParse
    decreases remaining(toks, pos), 6int,
{
    match spec_equality(toks, pos) {
        ExprParse::Done { pos: p, expr } => spec_and_tail(toks, past(p, pos), expr),
        fault => fault,
    }
}

/// The left-leaning fold of `or` onto `left`.
pub open spec fn spec_or_tail(toks: Seq<TokenModel>, pos: int, left: ExprModel) -> ExprParse
    decreases remaining(toks, pos), 0int,
{
    if spec_check(toks, pos, TokenType::Or) {
        match spec_and(toks, pos + 1) {
            ExprParse::Done { pos: p, expr: right } => spec_or_tail(
                toks,
                past(p, pos),
                ExprModel::Logical {
                    left: Box::new(left),
                    operator: toks[pos],
                    right: Box::new(right),
                },
            ),
            fault => fault,
        }
    } else {
        ExprParse::Done { pos, expr: left }
    }
}

/// Logical `or`, the loosest-binding operator above assignment.
#[verifier::opaque]
pub open spec fn spec_or(toks: Seq<TokenModel>, pos: int) -> ExprParse
    decreases remaining(toks, pos), 7int,
{
    match spec_and(toks, pos) {
        ExprParse::Done { pos: p, expr } => spec_or_tail(toks, past(p, pos), expr),
        fault => fault,
    }
}

/// Assignment: right-associative, and only legal when what was parsed to
/// the left of `=` is a plain variable — anything else is the error
/// `Invalid assignment target.` at the `=` token.
#[verifier::opaque]
pub open spec fn spec_assignment(toks: Seq<TokenModel>, pos: int) -> ExprParse
    decreases remaining(toks, pos), 8int,
{
    match spec_or(toks, pos) {
        ExprParse::Done { pos: p0, expr } => {
            let p = past(p0, pos);
            if spec_check(toks, p, TokenType::Equal) {
                match spec_assignment(toks, p + 1) {
                    ExprParse::Done { pos: p2, expr: value } => match expr {
                        ExprModel::Variable { name } => ExprParse::Done {
                            pos: p2,
                            expr: ExprModel::Assign { name, value: Box::new(value) },
                        },
                        _ => ExprParse::Fault {
                            pos: p2,
                            token: toks[p],
                            message: "Invalid assignment target."@,
                        },
                    },
                    fault => fault,
                }
            } else {
                ExprParse::Done { pos: p0, expr }
            }
        },
        fault => fault,
    }
}

/// A whole expression: the assignment level.
#[verifier::opaque]
pub open spec fn spec_expression(toks: Seq<TokenModel>, pos: int) -> ExprParse
    decreases remaining(toks, pos), 9int,
{
    spec_assignment(toks, pos)
}

/// How an expression-level parse shows up in the parser: on success, the
/// returned node and the cursor, strictly advanced, with the error handler
/// untouched; on a syntax error, the cursor where parsing stopped and
/// exactly one new diagnostic at the offending token.
pub open spec fn expr_method_post(
    o: ExprParse,
    r: Result<Expr, ParserError>,
    pos0: int,
    pos1: int,
    old_diags: Seq<DiagnosticModel>,
    new_diags: Seq<DiagnosticModel>,
    old_had_error: bool,
    new_had_error: bool,
) -> bool {
    match r {
        Result::Ok(e) => {
            &&& o == (ExprParse::Done { pos: pos1, expr: e@ })
            &&& pos1 > pos0
            &&& new_diags == old_diags
            &&& new_had_error == old_had_error
        },
        Result::Err(_) => match o {
            ExprParse::Fault { pos, token, message } => {
                &&& pos == pos1
                &&& pos1 >= pos0
                &&& new_had_error
                &&& new_diags == old_diags.push(
                    DiagnosticModel::Report {
                        line: token.line,
                        location: parse_error_location(token),
                        message,
                    },
                )
            },
            _ => false,
        },
    }
}

/// The outcome of parsing one statement.
pub enum StmtParse {
    Done { pos: int, stmt: StmtModel },
    Fault { pos: int, token: TokenModel, message: Seq<char> },
}

/// The outcome of parsing the inside of a block.
pub enum BlockParse {
    Done { pos: int, stmts: Seq<StmtModel> },
    Fault { pos: int, token: TokenModel, message: Seq<char> },
}

/// An expression statement: an expression, then `;`.
#[verifier::opaque]
pub open spec fn spec_expression_statement(toks: Seq<TokenModel>, pos: int) -> StmtParse
    decreases remaining(toks, pos), 20int,
{
    match spec_expression(toks, pos) {
        ExprParse::Done { pos: p, expr } => if spec_check(toks, p, TokenType::Semicolon) {
            StmtParse::Done {
                pos: p + 1,
                stmt: StmtModel::Expression { expression: Box::new(expr) },
            }
        } else {
            StmtParse::Fault {
                pos: p,
                token: spec_peek(toks, p),
                message: "Expect ';' after expression."@,
            }
        },
        ExprParse::Fault { pos: p, token, message } => StmtParse::Fault { pos: p, token, message },
    }
}

/// A print statement: `print`, an expression, then `;`.
#[verifier::opaque]
pub open spec fn spec_print_statement(toks: Seq<TokenModel>, pos: int) -> StmtParse
    decreases remaining(toks, pos), 20int,
{
    match spec_expression(toks, pos) {
        ExprParse::Done { pos: p, expr } => if spec_check(toks, p, TokenType::Semicolon) {
            StmtParse::Done { pos: p + 1, stmt: StmtModel::Print { expression: Box::new(expr) } }
        } else {
            StmtParse::Fault {
                pos: p,
                token: spec_peek(toks, p),
                message: "Expect ';' after value."@,
            }
        },
        ExprParse::Fault { pos: p, token, message } => StmtParse::Fault { pos: p, token, message },
    }
}

/// A variable declaration: `var`, a name, an optional `=` initializer
/// (omitted, it is the literal nil), then `;`.
#[verifier::opaque]
pub open spec fn spec_var_declaration(toks: Seq<TokenModel>, pos: int) -> StmtParse
    decreases remaining(toks, pos), 24int,
{
    if spec_check(toks, pos, TokenType::Identifier) {
        if spec_check(toks, pos + 1, TokenType::Equal) {
            match spec_expression(toks, pos + 2) {
                ExprParse::Done { pos: p, expr } => if spec_check(toks, p, TokenType::Semicolon) {
                    StmtParse::Done {
                        pos: p + 1,
                        stmt: StmtModel::Var { name: toks[pos], initializer: Box::new(expr) },
                    }
                } else {
                    StmtParse::Fault {
                        pos: p,
                        token: spec_peek(toks, p),
                        message: "Expect ';' after variable declaration"@,
                    }
                },
                ExprParse::Fault { pos: p, token, message } => StmtParse::Fault {
                    pos: p,
                    token,
                    message,
                },
            }
        } else if spec_check(toks, pos + 1, TokenType::Semicolon) {
            StmtParse::Done {
                pos: pos + 2,
                stmt: StmtModel::Var {
                    name: toks[pos],
                    initializer: Box::new(ExprModel::Literal { lit: LiteralModel::Nil }),
                },
            }
        } else {
            StmtParse::Fault {
                pos: pos + 1,
                token: spec_peek(toks, pos + 1),
                message: "Expect ';' after variable declaration"@,
            }
        }
    } else {
        StmtParse::Fault {
            pos,
            token: spec_peek(toks, pos),
            message: "Expect variable name."@,
        }
    }
}

/// An if statement: a parenthesized condition, a then branch, and an
/// optional `else` branch.
#[verifier::opaque]
pub open spec fn spec_if_statement(toks: Seq<TokenModel>, pos: int) -> StmtParse
    decreases remaining(toks, pos), 24int,
{
    if !spec_check(toks, pos, TokenType::LeftParen) {
        StmtParse::Fault {
            pos,
            token: spec_peek(toks, pos),
            message: "Expect '(' after 'if'."@,
        }
    } else {
        match spec_expression(toks, pos + 1) {
            ExprParse::Done { pos: p, expr: condition } => if !spec_check(
                toks,
                p,
                TokenType::RightParen,
            ) {
                StmtParse::Fault {
                    pos: p,
                    token: spec_peek(toks, p),
                    message: "Expect ')' after if condition."@,
                }
            } else {
                match spec_statement(toks, past(p + 1, pos)) {
                    StmtParse::Done { pos: q, stmt: then_branch } => if spec_check(
                        toks,
                        q,
                        TokenType::Else,
                    ) {
                        match spec_statement(toks, past(q + 1, pos)) {
                            StmtParse::Done { pos: r2, stmt: else_branch } => StmtParse::Done {
                                pos: r2,
                                stmt: StmtModel::If {
                                    condition: Box::new(condition),
                                    then_branch: Box::new(then_branch),
                                    else_branch: Option::Some(Box::new(else_branch)),
                                },
                            },
                            fault => fault,
                        }
                    } else {
                        StmtParse::Done {
                            pos: q,
                            stmt: StmtModel::If {
                                condition: Box::new(condition),
                                then_branch: Box::new(then_branch),
                                else_branch: Option::None,
                            },
                        }
                    },
                    fault => fault,
                }
            },
            ExprParse::Fault { pos: p, token, message } => StmtParse::Fault {
                pos: p,
                token,
                message,
            },
        }
    }
}

/// A while statement: a parenthesized condition and a body.
#[verifier::opaque]
pub open spec fn spec_while_statement(toks: Seq<TokenModel>, pos: int) -> StmtParse
    decreases remaining(toks, pos), 24int,
{
    if !spec_check(toks, pos, TokenType::LeftParen) {
        StmtParse::Fault {
            pos,
            token: spec_peek(toks, pos),
            message: "Expect '(' after 'while'."@,
        }
    } else {
        match spec_expression(toks, pos + 1) {
            ExprParse::Done { pos: p, expr: condition } => if !spec_check(
                toks,
                p,
                TokenType::RightParen,
            ) {
                StmtParse::Fault {
                    pos: p,
                    token: spec_peek(toks, p),
                    message: "Expect ')' after condition."@,
                }
            } else {
                match spec_statement(toks, past(p + 1, pos)) {
                    StmtParse::Done { pos: q, stmt: body } => StmtParse::Done {
                        pos: q,
                        stmt: StmtModel::While {
                            condition: Box::new(condition),
                            body: Box::new(body),
                        },
                    },
                    fault => fault,
                }
            },
            ExprParse::Fault { pos: p, token, message } => StmtParse::Fault {
                pos: p,
                token,
                message,
            },
        }
    }
}

/// The desugared statement a for loop becomes: the increment, if any, is
/// appended to the body in a block; an omitted condition is the literal
/// true; the whole becomes a while loop, preceded by the initializer, if
/// any, in an enclosing block.
pub open spec fn spec_for_desugar(
    initializer: Option<StmtModel>,
    condition: Option<ExprModel>,
    increment: Option<ExprModel>,
    body: StmtModel,
) -> StmtModel {
    let body1 = match increment {
        Option::Some(inc) => StmtModel::Block {
            statements: seq![body, StmtModel::Expression { expression: Box::new(inc) }],
        },
        Option::None => body,
    };
    let cond = match condition {
        Option::Some(c) => c,
        Option::None => ExprModel::Literal { lit: LiteralModel::True },
    };
    let looped = StmtModel::While { condition: Box::new(cond), body: Box::new(body1) };
    match initializer {
        Option::Some(init) => StmtModel::Block { statements: seq![init, looped] },
        Option::None => looped,
    }
}

/// The rest of a for statement after its condition: the optional increment,
/// the closing parenthesis, the body, and the desugaring. `entry` is where
/// the whole for statement began.
pub open spec fn spec_for_after_condition(
    toks: Seq<TokenModel>,
    entry: int,
    pos: int,
    initializer: Option<StmtModel>,
    condition: Option<ExprModel>,
) -> StmtParse
    decreases remaining(toks, pos), 22int,
{
    let inc_parse = if !spec_check(toks, pos, TokenType::RightParen) {
        spec_expression(toks, pos)
    } else {
        ExprParse::Done { pos, expr: ExprModel::Literal { lit: LiteralModel::Nil } }
    };
    let has_increment = !spec_check(toks, pos, TokenType::RightParen);
    match inc_parse {
        ExprParse::Done { pos: q, expr: inc } => if spec_check(toks, q, TokenType::RightParen) {
            match spec_statement(toks, past(q + 1, pos)) {
                StmtParse::Done { pos: r2, stmt: body } => StmtParse::Done {
                    pos: r2,
                    stmt: spec_for_desugar(
                        initializer,
                        condition,
                        if has_increment {
                            Option::Some(inc)
                        } else {
                            Option::None
                        },
                        body,
                    ),
                },
                fault => fault,
            }
        } else {
            StmtParse::Fault {
                pos: q,
                token: spec_peek(toks, q),
                message: "Expect ')' after for clauses."@,
            }
        },
        ExprParse::Fault { pos: q, token, message } => StmtParse::Fault { pos: q, token, message },
    }
}

/// The rest of a for statement after its initializer: the optional
/// condition and the `;` after it.
pub open spec fn spec_for_after_initializer(
    toks: Seq<TokenModel>,
    entry: int,
    pos: int,
    initializer: Option<StmtModel>,
) -> StmtParse
    decreases remaining(toks, pos), 23int,
{
    let cond_parse = if !spec_check(toks, pos, TokenType::Semicolon) {
        spec_expression(toks, pos)
    } else {
        ExprParse::Done { pos, expr: ExprModel::Literal { lit: LiteralModel::Nil } }
    };
    let has_condition = !spec_check(toks, pos, TokenType::Semicolon);
    match cond_parse {
        ExprParse::Done { pos: q, expr: cond } => if spec_check(toks, q, TokenType::Semicolon) {
            spec_for_after_condition(
                toks,
                entry,
                past(q + 1, pos),
                initializer,
                if has_condition {
                    Option::Some(cond)
                } else {
                    Option::None
                },
            )
        } else {
            StmtParse::Fault {
                pos: q,
                token: spec_peek(toks, q),
                message: "Expect ';' after loop condition."@,
            }
        },
        ExprParse::Fault { pos: q, token, message } => StmtParse::Fault { pos: q, token, message },
    }
}

/// A for statement: `(`, an initializer (`;` for none, a `var` declaration,
/// or an expression statement), a condition, an increment, `)`, and a body,
/// desugared at parse time into an equivalent while loop.
#[verifier::opaque]
pub open spec fn spec_for_statement(toks: Seq<TokenModel>, pos: int) -> StmtParse
    decreases remaining(toks, pos), 24int,
{
    if !spec_check(toks, pos, TokenType::LeftParen) {
        StmtParse::Fault {
            pos,
            token: spec_peek(toks, pos),
            message: "Expect '(' after 'for'."@,
        }
    } else {
        let p = pos + 1;
        if spec_check(toks, p, TokenType::Semicolon) {
            spec_for_after_initializer(toks, pos, p + 1, Option::None)
        } else if spec_check(toks, p, TokenType::Var) {
            match spec_var_declaration(toks, p + 1) {
                StmtParse::Done { pos: q, stmt } => spec_for_after_initializer(
                    toks,
                    pos,
                    past(q, pos),
                    Option::Some(stmt),
                ),
                fault => fault,
            }
        } else {
            match spec_expression_statement(toks, p) {
                StmtParse::Done { pos: q, stmt } => spec_for_after_initializer(
                    toks,
                    pos,
                    past(q, pos),
                    Option::Some(stmt),
                ),
                fault => fault,
            }
        }
    }
}

/// The statements of a block body, from `pos` up to the closing `}`.
pub open spec fn spec_block_tail(toks: Seq<TokenModel>, pos: int, acc: Seq<StmtModel>) -> BlockParse
    decreases remaining(toks, pos), 26int,
{
    if !spec_check(toks, pos, TokenType::RightBrace) && !spec_is_at_end(toks, pos) {
        match spec_declaration(toks, pos) {
            StmtParse::Done { pos: p, stmt } => spec_block_tail(toks, past(p, pos), acc.push(stmt)),
            StmtParse::Fault { pos: p, token, message } => BlockParse::Fault {
                pos: p,
                token,
                message,
            },
        }
    } else if spec_check(toks, pos, TokenType::RightBrace) {
        BlockParse::Done { pos: pos + 1, stmts: acc }
    } else {
        BlockParse::Fault {
            pos,
            token: spec_peek(toks, pos),
            message: "Expect '}' after block."@,
        }
    }
}

/// One statement: a for, if, print, while, block, or expression statement.
#[verifier::opaque]
pub open spec fn spec_statement(toks: Seq<TokenModel>, pos: int) -> StmtParse
    decreases remaining(toks, pos), 21int,
{
    if spec_check(toks, pos, TokenType::For) {
        spec_for_statement(toks, pos + 1)
    } else if spec_check(toks, pos, TokenType::If) {
        spec_if_statement(toks, pos + 1)
    } else if spec_check(toks, pos, TokenType::Print) {
        spec_print_statement(toks, pos + 1)
    } else if spec_check(toks, pos, TokenType::While) {
        spec_while_statement(toks, pos + 1)
    } else if spec_check(toks, pos, TokenType::LeftBrace) {
        match spec_block_tail(toks, pos + 1, Seq::empty()) {
            BlockParse::Done { pos: p, stmts } => StmtParse::Done {
                pos: p,
                stmt: StmtModel::Block { statements: stmts },
            },
            BlockParse::Fault { pos: p, token, message } => StmtParse::Fault {
                pos: p,
                token,
                message,
            },
        }
    } else {
        spec_expression_statement(toks, pos)
    }
}

/// One declaration: a `var` declaration or a statement.
#[verifier::opaque]
pub open spec fn spec_declaration(toks: Seq<TokenModel>, pos: int) -> StmtParse
    decreases remaining(toks, pos), 25int,
{
    if spec_check(toks, pos, TokenType::Var) {
        spec_var_declaration(toks, pos + 1)
    } else {
        spec_statement(toks, pos)
    }
}

/// Where synchronization lands, scanning from `pos`: just past a `;`, or
/// at a token that can begin a declaration, or at the end of input.
pub open spec fn spec_sync_scan(toks: Seq<TokenModel>, pos: int) -> int
    decreases remaining(toks, pos),
{
    if spec_is_at_end(toks, pos) {
        pos
    } else if 0 <= pos - 1 < toks.len() && toks[pos - 1].token_type == TokenType::Semicolon {
        pos
    } else if match toks[pos].token_type {
        TokenType::Class => true,
        TokenType::Fun => true,
        TokenType::Var => true,
        TokenType::For => true,
        TokenType::If => true,
        TokenType::While => true,
        TokenType::Print => true,
        TokenType::Return => true,
        _ => false,
    } {
        pos
    } else {
        spec_sync_scan(toks, pos + 1)
    }
}

/// After a syntax error, tokens are discarded up to a statement boundary:
/// one token unconditionally, then up to just past a `;` or to a keyword
/// that begins a declaration.
pub open spec fn spec_synchronize(toks: Seq<TokenModel>, pos: int) -> int {
    if spec_is_at_end(toks, pos) {
        spec_sync_scan(toks, pos)
    } else {
        spec_sync_scan(toks, pos + 1)
    }
}

/// The program at `pos`: declarations in order until the end of input. A
/// declaration that fails to parse contributes its error, synchronization
/// skips to the next statement boundary, and parsing resumes, so one pass
/// can report several independent errors.
pub open spec fn spec_parse_tail(toks: Seq<TokenModel>, pos: int) -> (
    Seq<StmtModel>,
    Seq<(TokenModel, Seq<char>)>,
)
    decreases remaining(toks, pos), 27int,
{
    if spec_is_at_end(toks, pos) {
        (Seq::empty(), Seq::empty())
    } else {
        match spec_declaration(toks, pos) {
            StmtParse::Done { pos: p, stmt } => {
                let rest = spec_parse_tail(toks, past(p, pos));
                (seq![stmt] + rest.0, rest.1)
            },
            StmtParse::Fault { pos: p, token, message } => {
                let rest = spec_parse_tail(toks, past(spec_synchronize(toks, p), pos));
                (rest.0, seq![(token, message)] + rest.1)
            },
        }
    }
}

/// The whole parse of a token sequence.
pub open spec fn spec_parse(toks: Seq<TokenModel>) -> (
    Seq<StmtModel>,
    Seq<(TokenModel, Seq<char>)>,
) {
    spec_parse_tail(toks, 0)
}

/// The diagnostics that a sequence of syntax errors becomes.
pub open spec fn parse_reports(errs: Seq<(TokenModel, Seq<char>)>) -> Seq<DiagnosticModel> {
    errs.map(
        |i: int, e: (TokenModel, Seq<char>)|
            DiagnosticModel::Report {
                line: e.0.line,
                location: parse_error_location(e.0),
                message: e.1,
            },
    )
}

/// How a statement-level parse shows up in the parser: like an expression
/// parse, with a statement node.
pub open spec fn stmt_method_post(
    o: StmtParse,
    r: Result<Stmt, ParserError>,
    pos0: int,
    pos1: int,
    old_diags: Seq<DiagnosticModel>,
    new_diags: Seq<DiagnosticModel>,
    old_had_error: bool,
    new_had_error: bool,
) -> bool {
    match r {
        Result::Ok(s) => {
            &&& o == (StmtParse::Done { pos: pos1, stmt: s@ })
            &&& pos1 > pos0
            &&& new_diags == old_diags
            &&& new_had_error == old_had_error
        },
        Result::Err(_) => match o {
            StmtParse::Fault { pos, token, message } => {
                &&& pos == pos1
                &&& pos1 >= pos0
                &&& new_had_error
                &&& new_diags == old_diags.push(
                    DiagnosticModel::Report {
                        line: token.line,
                        location: parse_error_location(token),
                        message,
                    },
                )
            },
            _ => false,
        },
    }
}

/// How a block-body parse shows up in the parser.
pub open spec fn block_method_post(
    o: BlockParse,
    r: Result<Vec<Stmt>, ParserError>,
    pos0: int,
    pos1: int,
    old_diags: Seq<DiagnosticModel>,
    new_diags: Seq<DiagnosticModel>,
    old_had_error: bool,
    new_had_error: bool,
) -> bool {
    match r {
        Result::Ok(v) => {
            &&& o == (BlockParse::Done { pos: pos1, stmts: stmts_view(v@) })
            &&& pos1 > pos0
            &&& new_diags == old_diags
            &&& new_had_error == old_had_error
        },
        Result::Err(_) => match o {
            BlockParse::Fault { pos, token, message } => {
                &&& pos == pos1
                &&& pos1 >= pos0
                &&& new_had_error
                &&& new_diags == old_diags.push(
                    DiagnosticModel::Report {
                        line: token.line,
                        location: parse_error_location(token),
                        message,
                    },
                )
            },
            _ => false,
        },
    }
}

/// Well-formed parser state: well-formed tokens and an in-range cursor.
pub open spec fn parser_wf(toks: Seq<TokenModel>, pos: int) -> bool {
    toks_wf(toks) && 0 <= pos < toks.len()
}

/// Recursive-descent parser: consumes the token sequence with one token of
/// lookahead, producing the statement sequence `spec_parse` describes and
/// reporting each syntax error as it is found.
pub struct Parser {
    pub tokens: Vec<Token>,
    pub current: usize,
}

impl Parser {
    /// The shapes of the tokens being parsed.
    pub open spec fn toks(&self) -> Seq<TokenModel> {
        tokens_view(self.tokens@)
    }

    /// Well-formed parser: tokens end in the end-of-input marker and the
    /// cursor is in range.
    pub open spec fn wf(&self) -> bool {
        toks_wf(self.toks()) && self.current < self.toks().len()
    }

    /// A parser over `tokens`, at the first of them.
    pub fn new(tokens: Vec<Token>) -> (r: Parser)
        ensures
            r.tokens == tokens,
            r.current == 0,
    {
        Parser { tokens, current: 0 }
    }

    fn check(&self, tt: TokenType) -> (r: bool)
        requires
            self.wf(),
        ensures
            r == spec_check(self.toks(), self.current as int, tt),
    {
        let t = self.tokens[self.current].token_type;
        if matches!(t, TokenType::EOF) {
            false
        } else {
            t == tt
        }
    }

    fn match_one(&mut self, tt: TokenType) -> (r: bool)
        requires
            old(self).wf(),
        ensures
            final(self).wf(),
            final(self).tokens == old(self).tokens,
            r == spec_check(old(self).toks(), old(self).current as int, tt),
            final(self).current == if r {
                old(self).current + 1
            } else {
                old(self).current as int
            },
    {
        if self.check(tt) {
            let n = self.tokens.len();
            proof {
                assert(self.toks()[self.current as int].token_type != TokenType::EOF);
                assert(self.current as int != self.toks().len() - 1);
                assert(self.toks().len() == n);
            }
            self.current = self.current + 1;
            true
        } else {
            false
        }
    }

    fn previous(&self) -> (r: Token)
        requires
            self.wf(),
            self.current >= 1,
        ensures
            r@ == self.toks()[self.current - 1],
    {
        self.tokens[self.current - 1].duplicate()
    }

    /// Report a syntax error at `token` and hand back the marker that
    /// unwinds the descent.
    fn error(&self, handler: &mut SimpleErrorHandler, token: &Token, msg: &str) -> (r: ParserError)
        ensures
            final(handler).had_error,
            final(handler).had_runtime_error == old(handler).had_runtime_error,
            diagnostics_view(final(handler).diagnostics@) == diagnostics_view(
                old(handler).diagnostics@,
            ).push(
                DiagnosticModel::Report {
                    line: token@.line,
                    location: parse_error_location(token@),
                    message: msg@,
                },
            ),
    {
        handler.parser_error(token, msg);
        ParserError {  }
    }

    fn consume(&mut self, token_type: TokenType, msg: &str, handler: &mut SimpleErrorHandler) -> (r:
        Result<Token, ParserError>)
        requires
            old(self).wf(),
        ensures
            final(self).wf(),
            final(self).tokens == old(self).tokens,
            final(handler).had_runtime_error == old(handler).had_runtime_error,
            match r {
                Result::Ok(t) => {
                    &&& spec_check(old(self).toks(), old(self).current as int, token_type)
                    &&& t@ == old(self).toks()[old(self).current as int]
                    &&& final(self).current == old(self).current + 1
                    &&& final(handler).diagnostics == old(handler).diagnostics
                    &&& final(handler).had_error == old(handler).had_error
                },
                Result::Err(_) => {
                    &&& !spec_check(old(self).toks(), old(self).current as int, token_type)
                    &&& final(self).current == old(self).current
                    &&& final(handler).had_error
                    &&& diagnostics_view(final(handler).diagnostics@) == diagnostics_view(
                        old(handler).diagnostics@,
                    ).push(
                        DiagnosticModel::Report {
                            line: spec_peek(old(self).toks(), old(self).current as int).line,
                            location: parse_error_location(
                                spec_peek(old(self).toks(), old(self).current as int),
                            ),
                            message: msg@,
                        },
                    )
                },
            },
    {
        if self.check(token_type) {
            let t = self.tokens[self.current].duplicate();
            let n = self.tokens.len();
            proof {
                assert(self.toks()[self.current as int].token_type != TokenType::EOF);
                assert(self.current as int != self.toks().len() - 1);
                assert(self.toks().len() == n);
            }
            self.current = self.current + 1;
            Result::Ok(t)
        } else {
            let token = self.tokens[self.current].duplicate();
            Result::Err(self.error(handler, &token, msg))
        }
    }

    #[verifier::rlimit(100)]
    #[verifier::spinoff_prover]
    fn primary(&mut self, handler: &mut SimpleErrorHandler) -> (r: Result<Expr, ParserError>)
        requires
            old(self).wf(),
        ensures
            final(self).wf(),
            final(self).tokens == old(self).tokens,
            final(handler).had_runtime_error == old(handler).had_runtime_error,
            expr_method_post(
                spec_primary(old(self).toks(), old(self).current as int),
                r,
                old(self).current as int,
                final(self).current as int,
                diagnostics_view(old(handler).diagnostics@),
                diagnostics_view(final(handler).diagnostics@),
                old(handler).had_error,
                final(handler).had_error,
            ),
        decreases remaining(self.toks(), self.current as int), 10int,
    {
        reveal(spec_primary);
        if self.match_one(TokenType::False) {
            return Result::Ok(Expr::Literal(LiteralExpr { value: Literal::False }));
        }
        if self.match_one(TokenType::True) {
            return Result::Ok(Expr::Literal(LiteralExpr { value: Literal::True }));
        }
        if self.match_one(TokenType::Nil) {
            return Result::Ok(Expr::Literal(LiteralExpr { value: Literal::Nil }));
        }
        if self.match_one(TokenType::Number) || self.match_one(TokenType::Str) {
            let t = self.previous();
            match t.literal {
                Option::Some(lit) => {
                    return Result::Ok(Expr::Literal(LiteralExpr { value: lit }));
                },
                Option::None => {
                    proof {
                        assert(false);
                    }
                    return Result::Err(ParserError {  });
                },
            }
        }
        if self.match_one(TokenType::Identifier) {
            let name = self.previous();
            return Result::Ok(Expr::Variable(Variable { name }));
        }
        if self.match_one(TokenType::LeftParen) {
            let expr = match self.expression(handler) {
                Result::Ok(e) => e,
                Result::Err(e) => {
                    return Result::Err(e);
                },
            };
            return match self.consume(TokenType::RightParen, "Expect ')' after expression.", handler) {
                Result::Ok(_) => Result::Ok(Expr::Grouping(Grouping { expression: Box::new(expr) })),
                Result::Err(e) => Result::Err(e),
            };
        }
        let token = self.tokens[self.current].duplicate();
        Result::Err(self.error(handler, &token, "Expect expression"))
    }

    #[verifier::rlimit(60)]
    fn unary(&mut self, handler: &mut SimpleErrorHandler) -> (r: Result<Expr, ParserError>)
        requires
            old(self).wf(),
        ensures
            final(self).wf(),
            final(self).tokens == old(self).tokens,
            final(handler).had_runtime_error == old(handler).had_runtime_error,
            expr_method_post(
                spec_unary(old(self).toks(), old(self).current as int),
                r,
                old(self).current as int,
                final(self).current as int,
                diagnostics_view(old(handler).diagnostics@),
                diagnostics_view(final(handler).diagnostics@),
                old(handler).had_error,
                final(handler).had_error,
            ),
        decreases remaining(self.toks(), self.current as int), 11int,
    {
        reveal(spec_unary);
        reveal(spec_primary);
        if self.match_one(TokenType::Bang) || self.match_one(TokenType::Minus) {
            let operator = self.previous();
            let right = match self.unary(handler) {
                Result::Ok(e) => e,
                Result::Err(e) => {
                    return Result::Err(e);
                },
            };
            return Result::Ok(Expr::Unary(Unary { operator, right: Box::new(right) }));
        }
        self.primary(handler)
    }

    #[verifier::rlimit(100)]
    #[verifier::spinoff_prover]
    fn factor(&mut self, handler: &mut SimpleErrorHandler) -> (r: Result<Expr, ParserError>)
        requires
            old(self).wf(),
        ensures
            final(self).wf(),
            final(self).tokens == old(self).tokens,
            final(handler).had_runtime_error == old(handler).had_runtime_error,
            expr_method_post(
                spec_factor(old(self).toks(), old(self).current as int),
                r,
                old(self).current as int,
                final(self).current as int,
                diagnostics_view(old(handler).diagnostics@),
                diagnostics_view(final(handler).diagnostics@),
                old(handler).had_error,
                final(handler).had_error,
            ),
        decreases remaining(self.toks(), self.current as int), 12int,
    {
        reveal(spec_factor);
        let ghost toks0 = old(self).toks();
        let ghost pos0 = old(self).current as int;
        let ghost d0 = diagnostics_view(old(handler).diagnostics@);
        let ghost e0 = old(handler).had_error;
        let ghost r0 = old(handler).had_runtime_error;
        let mut expr = match self.unary(handler) {
            Result::Ok(e) => e,
            Result::Err(e) => {
                return Result::Err(e);
            },
        };
        loop
            invariant
                self.wf(),
                self.tokens == old(self).tokens,
                toks0 == old(self).toks(),
                pos0 == old(self).current as int,
                pos0 < self.current as int,
                spec_factor(toks0, pos0) == spec_factor_tail(toks0, self.current as int, expr@),
                diagnostics_view(handler.diagnostics@) == d0,
                d0 == diagnostics_view(old(handler).diagnostics@),
                handler.had_error == e0,
                e0 == old(handler).had_error,
                handler.had_runtime_error == r0,
                r0 == old(handler).had_runtime_error,
            decreases remaining(toks0, self.current as int),
        {
            let matched = self.match_one(TokenType::Slash) || self.match_one(TokenType::Star);
            if !matched {
                return Result::Ok(expr);
            }
            let operator = self.previous();
            let right = match self.unary(handler) {
                Result::Ok(e) => e,
                Result::Err(e) => {
                    return Result::Err(e);
                },
            };
            expr = Expr::Binary(Binary { left: Box::new(expr), operator, right: Box::new(right) });
        }
    }
    #[verifier::rlimit(100)]
    #[verifier::spinoff_prover]
    fn term(&mut self, handler: &mut SimpleErrorHandler) -> (r: Result<Expr, ParserError>)
        requires
            old(self).wf(),
        ensures
            final(self).wf(),
            final(self).tokens == old(self).tokens,
            final(handler).had_runtime_error == old(handler).had_runtime_error,
            expr_method_post(
                spec_term(old(self).toks(), old(self).current as int),
                r,
                old(self).current as int,
                final(self).current as int,
                diagnostics_view(old(handler).diagnostics@),
                diagnostics_view(final(handler).diagnostics@),
                old(handler).had_error,
                final(handler).had_error,
            ),
        decreases remaining(self.toks(), self.current as int), 13int,
    {
        reveal(spec_term);
        let ghost toks0 = old(self).toks();
        let ghost pos0 = old(self).current as int;
        let ghost d0 = diagnostics_view(old(handler).diagnostics@);
        let ghost e0 = old(handler).had_error;
        let ghost r0 = old(handler).had_runtime_error;
        let mut expr = match self.factor(handler) {
            Result::Ok(e) => e,
            Result::Err(e) => {
                return Result::Err(e);
            },
        };
        loop
            invariant
                self.wf(),
                self.tokens == old(self).tokens,
                toks0 == old(self).toks(),
                pos0 == old(self).current as int,
                pos0 < self.current as int,
                spec_term(toks0, pos0) == spec_term_tail(toks0, self.current as int, expr@),
                diagnostics_view(handler.diagnostics@) == d0,
                d0 == diagnostics_view(old(handler).diagnostics@),
                handler.had_error == e0,
                e0 == old(handler).had_error,
                handler.had_runtime_error == r0,
                r0 == old(handler).had_runtime_error,
            decreases remaining(toks0, self.current as int),
        {
            let matched = self.match_one(TokenType::Minus) || self.match_one(TokenType::Plus);
            if !matched {
                return Result::Ok(expr);
            }
            let operator = self.previous();
            let right = match self.factor(handler) {
                Result::Ok(e) => e,
                Result::Err(e) => {
                    return Result::Err(e);
                },
            };
            expr = Expr::Binary(Binary { left: Box::new(expr), operator, right: Box::new(right) });
        }
    }

    #[verifier::rlimit(100)]
    #[verifier::spinoff_prover]
    fn comparison(&mut self, handler: &mut SimpleErrorHandler) -> (r: Result<Expr, ParserError>)
        requires
            old(self).wf(),
        ensures
            final(self).wf(),
            final(self).tokens == old(self).tokens,
            final(handler).had_runtime_error == old(handler).had_runtime_error,
            expr_method_post(
                spec_comparison(old(self).toks(), old(self).current as int),
                r,
                old(self).current as int,
                final(self).current as int,
                diagnostics_view(old(handler).diagnostics@),
                diagnostics_view(final(handler).diagnostics@),
                old(handler).had_error,
                final(handler).had_error,
            ),
        decreases remaining(self.toks(), self.current as int), 14int,
    {
        reveal(spec_comparison);
        let ghost toks0 = old(self).toks();
        let ghost pos0 = old(self).current as int;
        let ghost d0 = diagnostics_view(old(handler).diagnostics@);
        let ghost e0 = old(handler).had_error;
        let ghost r0 = old(handler).had_runtime_error;
        let mut expr = match self.term(handler) {
            Result::Ok(e) => e,
            Result::Err(e) => {
                return Result::Err(e);
            },
        };
        loop
            invariant
                self.wf(),
                self.tokens == old(self).tokens,
                toks0 == old(self).toks(),
                pos0 == old(self).current as int,
                pos0 < self.current as int,
                spec_comparison(toks0, pos0) == spec_comparison_tail(toks0, self.current as int, expr@),
                diagnostics_view(handler.diagnostics@) == d0,
                d0 == diagnostics_view(old(handler).diagnostics@),
                handler.had_error == e0,
                e0 == old(handler).had_error,
                handler.had_runtime_error == r0,
                r0 == old(handler).had_runtime_error,
            decreases remaining(toks0, self.current as int),
        {
            let matched = self.match_one(TokenType::Greater) || self.match_one(TokenType::GreaterEqual)
                || self.match_one(TokenType::Less) || self.match_one(TokenType::LessEqual);
            if !matched {
                return Result::Ok(expr);
            }
            let operator = self.previous();
            let right = match self.term(handler) {
                Result::Ok(e) => e,
                Result::Err(e) => {
                    return Result::Err(e);
                },
            };
            expr = Expr::Binary(Binary { left: Box::new(expr), operator, right: Box::new(right) });
        }
    }

    #[verifier::rlimit(100)]
    #[verifier::spinoff_prover]
    fn equality(&mut self, handler: &mut SimpleErrorHandler) -> (r: Result<Expr, ParserError>)
        requires
            old(self).wf(),
        ensures
            final(self).wf(),
            final(self).tokens == old(self).tokens,
            final(handler).had_runtime_error == old(handler).had_runtime_error,
            expr_method_post(
                spec_equality(old(self).toks(), old(self).current as int),
                r,
                old(self).current as int,
                final(self).current as int,
                diagnostics_view(old(handler).diagnostics@),
                diagnostics_view(final(handler).diagnostics@),
                old(handler).had_error,
                final(handler).had_error,
            ),
        decreases remaining(self.toks(), self.current as int), 15int,
    {
        reveal(spec_equality);
        let ghost toks0 = old(self).toks();
        let ghost pos0 = old(self).current as int;
        let ghost d0 = diagnostics_view(old(handler).diagnostics@);
        let ghost e0 = old(handler).had_error;
        let ghost r0 = old(handler).had_runtime_error;
        let mut expr = match self.comparison(handler) {
            Result::Ok(e) => e,
            Result::Err(e) => {
                return Result::Err(e);
            },
        };
        loop
            invariant
                self.wf(),
                self.tokens == old(self).tokens,
                toks0 == old(self).toks(),
                pos0 == old(self).current as int,
                pos0 < self.current as int,
                spec_equality(toks0, pos0) == spec_equality_tail(toks0, self.current as int, expr@),
                diagnostics_view(handler.diagnostics@) == d0,
                d0 == diagnostics_view(old(handler).diagnostics@),
                handler.had_error == e0,
                e0 == old(handler).had_error,
                handler.had_runtime_error == r0,
                r0 == old(handler).had_runtime_error,
            decreases remaining(toks0, self.current as int),
        {
            let matched = self.match_one(TokenType::BangEqual) || self.match_one(TokenType::EqualEqual);
            if !matched {
                return Result::Ok(expr);
            }
            let operator = self.previous();
            let right = match self.comparison(handler) {
                Result::Ok(e) => e,
                Result::Err(e) => {
                    return Result::Err(e);
                },
            };
            expr = Expr::Binary(Binary { left: Box::new(expr), operator, right: Box::new(right) });
        }
    }

    #[verifier::rlimit(100)]
    #[verifier::spinoff_prover]
    fn and_expr(&mut self, handler: &mut SimpleErrorHandler) -> (r: Result<Expr, ParserError>)
        requires
            old(self).wf(),
        ensures
            final(self).wf(),
            final(self).tokens == old(self).tokens,
            final(handler).had_runtime_error == old(handler).had_runtime_error,
            expr_method_post(
                spec_and(old(self).toks(), old(self).current as int),
                r,
                old(self).current as int,
                final(self).current as int,
                diagnostics_view(old(handler).diagnostics@),
                diagnostics_view(final(handler).diagnostics@),
                old(handler).had_error,
                final(handler).had_error,
            ),
        decreases remaining(self.toks(), self.current as int), 16int,
    {
        reveal(spec_and);
        let ghost toks0 = old(self).toks();
        let ghost pos0 = old(self).current as int;
        let ghost d0 = diagnostics_view(old(handler).diagnostics@);
        let ghost e0 = old(handler).had_error;
        let ghost r0 = old(handler).had_runtime_error;
        let mut expr = match self.equality(handler) {
            Result::Ok(e) => e,
            Result::Err(e) => {
                return Result::Err(e);
            },
        };
        loop
            invariant
                self.wf(),
                self.tokens == old(self).tokens,
                toks0 == old(self).toks(),
                pos0 == old(self).current as int,
                pos0 < self.current as int,
                spec_and(toks0, pos0) == spec_and_tail(toks0, self.current as int, expr@),
                diagnostics_view(handler.diagnostics@) == d0,
                d0 == diagnostics_view(old(handler).diagnostics@),
                handler.had_error == e0,
                e0 == old(handler).had_error,
                handler.had_runtime_error == r0,
                r0 == old(handler).had_runtime_error,
            decreases remaining(toks0, self.current as int),
        {
            let matched = self.match_one(TokenType::And);
            if !matched {
                return Result::Ok(expr);
            }
            let operator = self.previous();
            let right = match self.equality(handler) {
                Result::Ok(e) => e,
                Result::Err(e) => {
                    return Result::Err(e);
                },
            };
            expr = Expr::Logical(Logical { left: Box::new(expr), operator, right: Box::new(right) });
        }
    }

    #[verifier::rlimit(100)]
    #[verifier::spinoff_prover]
    fn or_expr(&mut self, handler: &mut SimpleErrorHandler) -> (r: Result<Expr, ParserError>)
        requires
            old(self).wf(),
        ensures
            final(self).wf(),
            final(self).tokens == old(self).tokens,
            final(handler).had_runtime_error == old(handler).had_runtime_error,
            expr_method_post(
                spec_or(old(self).toks(), old(self).current as int),
                r,
                old(self).current as int,
                final(self).current as int,
                diagnostics_view(old(handler).diagnostics@),
                diagnostics_view(final(handler).diagnostics@),
                old(handler).had_error,
                final(handler).had_error,
            ),
        decreases remaining(self.toks(), self.current as int), 17int,
    {
        reveal(spec_or);
        let ghost toks0 = old(self).toks();
        let ghost pos0 = old(self).current as int;
        let ghost d0 = diagnostics_view(old(handler).diagnostics@);
        let ghost e0 = old(handler).had_error;
        let ghost r0 = old(handler).had_runtime_error;
        let mut expr = match self.and_expr(handler) {
            Result::Ok(e) => e,
            Result::Err(e) => {
                return Result::Err(e);
            },
        };
        loop
            invariant
                self.wf(),
                self.tokens == old(self).tokens,
                toks0 == old(self).toks(),
                pos0 == old(self).current as int,
                pos0 < self.current as int,
                spec_or(toks0, pos0) == spec_or_tail(toks0, self.current as int, expr@),
                diagnostics_view(handler.diagnostics@) == d0,
                d0 == diagnostics_view(old(handler).diagnostics@),
                handler.had_error == e0,
                e0 == old(handler).had_error,
                handler.had_runtime_error == r0,
                r0 == old(handler).had_runtime_error,
            decreases remaining(toks0, self.current as int),
        {
            let matched = self.match_one(TokenType::Or);
            if !matched {
                return Result::Ok(expr);
            }
            let operator = self.previous();
            let right = match self.and_expr(handler) {
                Result::Ok(e) => e,
                Result::Err(e) => {
                    return Result::Err(e);
                },
            };
            expr = Expr::Logical(Logical { left: Box::new(expr), operator, right: Box::new(right) });
        }
    }
    #[verifier::rlimit(100)]
    #[verifier::spinoff_prover]
    fn assignment(&mut self, handler: &mut SimpleErrorHandler) -> (r: Result<Expr, ParserError>)
        requires
            old(self).wf(),
        ensures
            final(self).wf(),
            final(self).tokens == old(self).tokens,
            final(handler).had_runtime_error == old(handler).had_runtime_error,
            expr_method_post(
                spec_assignment(old(self).toks(), old(self).current as int),
                r,
                old(self).current as int,
                final(self).current as int,
                diagnostics_view(old(handler).diagnostics@),
                diagnostics_view(final(handler).diagnostics@),
                old(handler).had_error,
                final(handler).had_error,
            ),
        decreases remaining(self.toks(), self.current as int), 18int,
    {
        reveal(spec_assignment);
        let ghost toks0 = old(self).toks();
        let ghost pos0 = old(self).current as int;
        let expr = match self.or_expr(handler) {
            Result::Ok(e) => e,
            Result::Err(e) => {
                return Result::Err(e);
            },
        };
        let ghost p0 = self.current as int;
        proof {
            assert(past(p0, pos0) == p0);
            assert(spec_or(toks0, pos0) == (ExprParse::Done { pos: p0, expr: expr@ }));
        }
        if self.match_one(TokenType::Equal) {
            let equals = self.previous();
            let value = match self.assignment(handler) {
                Result::Ok(v) => v,
                Result::Err(e) => {
                    return Result::Err(e);
                },
            };
            let ghost p2 = self.current as int;
            return match expr {
                Expr::Variable(variable) => {
                    proof {
                        assert(spec_assignment(toks0, pos0) == (ExprParse::Done {
                            pos: p2,
                            expr: ExprModel::Assign {
                                name: variable.name@,
                                value: Box::new(value@),
                            },
                        }));
                    }
                    Result::Ok(Expr::Assign(Assign { name: variable.name, value: Box::new(value) }))
                },
                _ => {
                    proof {
                        assert(equals@ == toks0[p0]);
                        assert(spec_assignment(toks0, pos0) == (ExprParse::Fault {
                            pos: p2,
                            token: equals@,
                            message: "Invalid assignment target."@,
                        }));
                    }
                    Result::Err(self.error(handler, &equals, "Invalid assignment target."))
                },
            };
        }
        proof {
            assert(spec_assignment(toks0, pos0) == (ExprParse::Done { pos: p0, expr: expr@ }));
        }
        Result::Ok(expr)
    }

    #[verifier::rlimit(60)]
    fn expression(&mut self, handler: &mut SimpleErrorHandler) -> (r: Result<Expr, ParserError>)
        requires
            old(self).wf(),
        ensures
            final(self).wf(),
            final(self).tokens == old(self).tokens,
            final(handler).had_runtime_error == old(handler).had_runtime_error,
            expr_method_post(
                spec_expression(old(self).toks(), old(self).current as int),
                r,
                old(self).current as int,
                final(self).current as int,
                diagnostics_view(old(handler).diagnostics@),
                diagnostics_view(final(handler).diagnostics@),
                old(handler).had_error,
                final(handler).had_error,
            ),
        decreases remaining(self.toks(), self.current as int), 19int,
    {
        reveal(spec_expression);
        reveal(spec_assignment);
        self.assignment(handler)
    }

    #[verifier::rlimit(100)]
    #[verifier::spinoff_prover]
    fn expression_statement(&mut self, handler: &mut SimpleErrorHandler) -> (r: Result<
        Stmt,
        ParserError,
    >)
        requires
            old(self).wf(),
        ensures
            final(self).wf(),
            final(self).tokens == old(self).tokens,
            final(handler).had_runtime_error == old(handler).had_runtime_error,
            stmt_method_post(
                spec_expression_statement(old(self).toks(), old(self).current as int),
                r,
                old(self).current as int,
                final(self).current as int,
                diagnostics_view(old(handler).diagnostics@),
                diagnostics_view(final(handler).diagnostics@),
                old(handler).had_error,
                final(handler).had_error,
            ),
        decreases remaining(self.toks(), self.current as int), 30int,
    {
        reveal(spec_expression_statement);
        let expr = match self.expression(handler) {
            Result::Ok(e) => e,
            Result::Err(e) => {
                return Result::Err(e);
            },
        };
        match self.consume(TokenType::Semicolon, "Expect ';' after expression.", handler) {
            Result::Ok(_) => Result::Ok(
                Stmt::Expression(Expression { expression: Box::new(expr) }),
            ),
            Result::Err(e) => Result::Err(e),
        }
    }

    #[verifier::rlimit(100)]
    #[verifier::spinoff_prover]
    fn print_statement(&mut self, handler: &mut SimpleErrorHandler) -> (r: Result<
        Stmt,
        ParserError,
    >)
        requires
            old(self).wf(),
        ensures
            final(self).wf(),
            final(self).tokens == old(self).tokens,
            final(handler).had_runtime_error == old(handler).had_runtime_error,
            stmt_method_post(
                spec_print_statement(old(self).toks(), old(self).current as int),
                r,
                old(self).current as int,
                final(self).current as int,
                diagnostics_view(old(handler).diagnostics@),
                diagnostics_view(final(handler).diagnostics@),
                old(handler).had_error,
                final(handler).had_error,
            ),
        decreases remaining(self.toks(), self.current as int), 32int,
    {
        reveal(spec_print_statement);
        let value = match self.expression(handler) {
            Result::Ok(e) => e,
            Result::Err(e) => {
                return Result::Err(e);
            },
        };
        match self.consume(TokenType::Semicolon, "Expect ';' after value.", handler) {
            Result::Ok(_) => Result::Ok(Stmt::Print(Print { expression: Box::new(value) })),
            Result::Err(e) => Result::Err(e),
        }
    }

    #[verifier::rlimit(100)]
    #[verifier::spinoff_prover]
    fn var_declaration(&mut self, handler: &mut SimpleErrorHandler) -> (r: Result<
        Stmt,
        ParserError,
    >)
        requires
            old(self).wf(),
        ensures
            final(self).wf(),
            final(self).tokens == old(self).tokens,
            final(handler).had_runtime_error == old(handler).had_runtime_error,
            stmt_method_post(
                spec_var_declaration(old(self).toks(), old(self).current as int),
                r,
                old(self).current as int,
                final(self).current as int,
                diagnostics_view(old(handler).diagnostics@),
                diagnostics_view(final(handler).diagnostics@),
                old(handler).had_error,
                final(handler).had_error,
            ),
        decreases remaining(self.toks(), self.current as int), 32int,
    {
        reveal(spec_var_declaration);
        let name = match self.consume(TokenType::Identifier, "Expect variable name.", handler) {
            Result::Ok(t) => t,
            Result::Err(e) => {
                return Result::Err(e);
            },
        };
        let mut initializer = Expr::Literal(LiteralExpr { value: Literal::Nil });
        if self.match_one(TokenType::Equal) {
            initializer =
            match self.expression(handler) {
                Result::Ok(e) => e,
                Result::Err(e) => {
                    return Result::Err(e);
                },
            };
        }
        match self.consume(
            TokenType::Semicolon,
            "Expect ';' after variable declaration",
            handler,
        ) {
            Result::Ok(_) => Result::Ok(
                Stmt::Var(Var { name, initializer: Box::new(initializer) }),
            ),
            Result::Err(e) => Result::Err(e),
        }
    }

    #[verifier::rlimit(100)]
    #[verifier::spinoff_prover]
    fn if_statement(&mut self, handler: &mut SimpleErrorHandler) -> (r: Result<Stmt, ParserError>)
        requires
            old(self).wf(),
        ensures
            final(self).wf(),
            final(self).tokens == old(self).tokens,
            final(handler).had_runtime_error == old(handler).had_runtime_error,
            stmt_method_post(
                spec_if_statement(old(self).toks(), old(self).current as int),
                r,
                old(self).current as int,
                final(self).current as int,
                diagnostics_view(old(handler).diagnostics@),
                diagnostics_view(final(handler).diagnostics@),
                old(handler).had_error,
                final(handler).had_error,
            ),
        decreases remaining(self.toks(), self.current as int), 32int,
    {
        reveal(spec_if_statement);
        match self.consume(TokenType::LeftParen, "Expect '(' after 'if'.", handler) {
            Result::Ok(_) => {},
            Result::Err(e) => {
                return Result::Err(e);
            },
        }
        let condition = match self.expression(handler) {
            Result::Ok(e) => e,
            Result::Err(e) => {
                return Result::Err(e);
            },
        };
        match self.consume(TokenType::RightParen, "Expect ')' after if condition.", handler) {
            Result::Ok(_) => {},
            Result::Err(e) => {
                return Result::Err(e);
            },
        }
        let then_branch = match self.statement(handler) {
            Result::Ok(st) => st,
            Result::Err(e) => {
                return Result::Err(e);
            },
        };
        let mut else_branch: Option<Box<Stmt>> = Option::None;
        if self.match_one(TokenType::Else) {
            let eb = match self.statement(handler) {
                Result::Ok(st) => st,
                Result::Err(e) => {
                    return Result::Err(e);
                },
            };
            else_branch = Option::Some(Box::new(eb));
        }
        Result::Ok(
            Stmt::If(
                If {
                    condition: Box::new(condition),
                    then_branch: Box::new(then_branch),
                    else_branch,
                },
            ),
        )
    }

    #[verifier::rlimit(100)]
    #[verifier::spinoff_prover]
    fn while_statement(&mut self, handler: &mut SimpleErrorHandler) -> (r: Result<
        Stmt,
        ParserError,
    >)
        requires
            old(self).wf(),
        ensures
            final(self).wf(),
            final(self).tokens == old(self).tokens,
            final(handler).had_runtime_error == old(handler).had_runtime_error,
            stmt_method_post(
                spec_while_statement(old(self).toks(), old(self).current as int),
                r,
                old(self).current as int,
                final(self).current as int,
                diagnostics_view(old(handler).diagnostics@),
                diagnostics_view(final(handler).diagnostics@),
                old(handler).had_error,
                final(handler).had_error,
            ),
        decreases remaining(self.toks(), self.current as int), 32int,
    {
        reveal(spec_while_statement);
        match self.consume(TokenType::LeftParen, "Expect '(' after 'while'.", handler) {
            Result::Ok(_) => {},
            Result::Err(e) => {
                return Result::Err(e);
            },
        }
        let condition = match self.expression(handler) {
            Result::Ok(e) => e,
            Result::Err(e) => {
                return Result::Err(e);
            },
        };
        match self.consume(TokenType::RightParen, "Expect ')' after condition.", handler) {
            Result::Ok(_) => {},
            Result::Err(e) => {
                return Result::Err(e);
            },
        }
        let body = match self.statement(handler) {
            Result::Ok(st) => st,
            Result::Err(e) => {
                return Result::Err(e);
            },
        };
        Result::Ok(Stmt::While(While { condition: Box::new(condition), body: Box::new(body) }))
    }

    #[verifier::rlimit(100)]
    #[verifier::spinoff_prover]
    fn for_statement(&mut self, handler: &mut SimpleErrorHandler) -> (r: Result<Stmt, ParserError>)
        requires
            old(self).wf(),
        ensures
            final(self).wf(),
            final(self).tokens == old(self).tokens,
            final(handler).had_runtime_error == old(handler).had_runtime_error,
            stmt_method_post(
                spec_for_statement(old(self).toks(), old(self).current as int),
                r,
                old(self).current as int,
                final(self).current as int,
                diagnostics_view(old(handler).diagnostics@),
                diagnostics_view(final(handler).diagnostics@),
                old(handler).had_error,
                final(handler).had_error,
            ),
        decreases remaining(self.toks(), self.current as int), 32int,
    {
        reveal(spec_for_statement);
        let ghost toks0 = old(self).toks();
        let ghost entry = old(self).current as int;
        match self.consume(TokenType::LeftParen, "Expect '(' after 'for'.", handler) {
            Result::Ok(_) => {},
            Result::Err(e) => {
                return Result::Err(e);
            },
        }
        let initializer: Option<Stmt> = if self.match_one(TokenType::Semicolon) {
            Option::None
        } else if self.match_one(TokenType::Var) {
            match self.var_declaration(handler) {
                Result::Ok(st) => Option::Some(st),
                Result::Err(e) => {
                    return Result::Err(e);
                },
            }
        } else {
            match self.expression_statement(handler) {
                Result::Ok(st) => Option::Some(st),
                Result::Err(e) => {
                    return Result::Err(e);
                },
            }
        };
        let ghost init_model = match &initializer {
            Option::Some(st) => Option::Some(st@),
            Option::None => Option::<StmtModel>::None,
        };
        let ghost after_init = self.current as int;
        proof {
            assert(spec_for_statement(toks0, entry) == spec_for_after_initializer(
                toks0,
                entry,
                after_init,
                init_model,
            ));
        }
        let mut condition: Option<Expr> = Option::None;
        if !self.check(TokenType::Semicolon) {
            condition =
            match self.expression(handler) {
                Result::Ok(e) => Option::Some(e),
                Result::Err(e) => {
                    return Result::Err(e);
                },
            };
        }
        match self.consume(TokenType::Semicolon, "Expect ';' after loop condition.", handler) {
            Result::Ok(_) => {},
            Result::Err(e) => {
                return Result::Err(e);
            },
        }
        let ghost cond_model = match &condition {
            Option::Some(c) => Option::Some(c@),
            Option::None => Option::<ExprModel>::None,
        };
        let ghost after_cond = self.current as int;
        proof {
            assert(spec_for_after_initializer(toks0, entry, after_init, init_model)
                == spec_for_after_condition(toks0, entry, after_cond, init_model, cond_model));
        }
        let mut increment: Option<Expr> = Option::None;
        if !self.check(TokenType::RightParen) {
            increment =
            match self.expression(handler) {
                Result::Ok(e) => Option::Some(e),
                Result::Err(e) => {
                    return Result::Err(e);
                },
            };
        }
        match self.consume(TokenType::RightParen, "Expect ')' after for clauses.", handler) {
            Result::Ok(_) => {},
            Result::Err(e) => {
                return Result::Err(e);
            },
        }
        let ghost inc_model = match &increment {
            Option::Some(c) => Option::Some(c@),
            Option::None => Option::<ExprModel>::None,
        };
        let mut body = match self.statement(handler) {
            Result::Ok(st) => st,
            Result::Err(e) => {
                return Result::Err(e);
            },
        };
        let ghost body_model = body@;
        if let Option::Some(inc) = increment {
            let mut in_block: Vec<Stmt> = Vec::new();
            in_block.push(body);
            in_block.push(Stmt::Expression(Expression { expression: Box::new(inc) }));
            proof {
                lemma_stmts_view_index(in_block@);
                assert(stmts_view(in_block@).len() == 2);
                assert(stmts_view(in_block@)[0] == crate::stmt::stmt_view(in_block@[0]));
                assert(stmts_view(in_block@)[1] == crate::stmt::stmt_view(in_block@[1]));
                assert(stmts_view(in_block@) =~= seq![
                    body_model,
                    StmtModel::Expression { expression: Box::new(inc_model->Some_0) },
                ]);
            }
            body = Stmt::Block(Block { statements: in_block });
        }
        let ghost body1_model = body@;
        let cond = match condition {
            Option::Some(c) => c,
            Option::None => Expr::Literal(LiteralExpr { value: Literal::True }),
        };
        body = Stmt::While(While { condition: Box::new(cond), body: Box::new(body) });
        if let Option::Some(init) = initializer {
            let ghost looped = body@;
            let mut out_block: Vec<Stmt> = Vec::new();
            out_block.push(init);
            out_block.push(body);
            proof {
                lemma_stmts_view_index(out_block@);
                assert(stmts_view(out_block@).len() == 2);
                assert(stmts_view(out_block@)[0] == crate::stmt::stmt_view(out_block@[0]));
                assert(stmts_view(out_block@)[1] == crate::stmt::stmt_view(out_block@[1]));
                assert(stmts_view(out_block@) =~= seq![init_model->Some_0, looped]);
            }
            body = Stmt::Block(Block { statements: out_block });
        }
        proof {
            assert(body@ == spec_for_desugar(init_model, cond_model, inc_model, body_model));
        }
        Result::Ok(body)
    }

    #[verifier::rlimit(100)]
    #[verifier::spinoff_prover]
    fn block(&mut self, handler: &mut SimpleErrorHandler) -> (r: Result<Vec<Stmt>, ParserError>)
        requires
            old(self).wf(),
        ensures
            final(self).wf(),
            final(self).tokens == old(self).tokens,
            final(handler).had_runtime_error == old(handler).had_runtime_error,
            block_method_post(
                spec_block_tail(old(self).toks(), old(self).current as int, Seq::empty()),
                r,
                old(self).current as int,
                final(self).current as int,
                diagnostics_view(old(handler).diagnostics@),
                diagnostics_view(final(handler).diagnostics@),
                old(handler).had_error,
                final(handler).had_error,
            ),
        decreases remaining(self.toks(), self.current as int), 34int,
    {
        let ghost toks0 = old(self).toks();
        let ghost pos0 = old(self).current as int;
        let ghost d0 = diagnostics_view(old(handler).diagnostics@);
        let ghost e0 = old(handler).had_error;
        let ghost r0 = old(handler).had_runtime_error;
        let mut statements: Vec<Stmt> = Vec::new();
        proof {
            assert(stmts_view(statements@) =~= Seq::<StmtModel>::empty());
        }
        loop
            invariant
                self.wf(),
                self.tokens == old(self).tokens,
                toks0 == old(self).toks(),
                pos0 == old(self).current as int,
                pos0 <= self.current as int,
                spec_block_tail(toks0, pos0, Seq::empty()) == spec_block_tail(
                    toks0,
                    self.current as int,
                    stmts_view(statements@),
                ),
                diagnostics_view(handler.diagnostics@) == d0,
                d0 == diagnostics_view(old(handler).diagnostics@),
                handler.had_error == e0,
                e0 == old(handler).had_error,
                handler.had_runtime_error == r0,
                r0 == old(handler).had_runtime_error,
            decreases remaining(toks0, self.current as int),
        {
            let more = !self.check(TokenType::RightBrace) && !self.is_at_end();
            if !more {
                return match self.consume(TokenType::RightBrace, "Expect '}' after block.", handler) {
                    Result::Ok(_) => Result::Ok(statements),
                    Result::Err(e) => Result::Err(e),
                };
            }
            match self.declaration(handler) {
                Result::Ok(st) => {
                    let ghost before = statements@;
                    statements.push(st);
                    proof {
                        assert(statements@.drop_last() =~= before);
                        assert(stmts_view(statements@) =~= stmts_view(before).push(
                            statements@.last()@,
                        ));
                    }
                },
                Result::Err(e) => {
                    return Result::Err(e);
                },
            }
        }
    }

    #[verifier::rlimit(100)]
    #[verifier::spinoff_prover]
    fn statement(&mut self, handler: &mut SimpleErrorHandler) -> (r: Result<Stmt, ParserError>)
        requires
            old(self).wf(),
        ensures
            final(self).wf(),
            final(self).tokens == old(self).tokens,
            final(handler).had_runtime_error == old(handler).had_runtime_error,
            stmt_method_post(
                spec_statement(old(self).toks(), old(self).current as int),
                r,
                old(self).current as int,
                final(self).current as int,
                diagnostics_view(old(handler).diagnostics@),
                diagnostics_view(final(handler).diagnostics@),
                old(handler).had_error,
                final(handler).had_error,
            ),
        decreases remaining(self.toks(), self.current as int), 31int,
    {
        reveal(spec_statement);
        reveal(spec_expression_statement);
        if self.match_one(TokenType::For) {
            return self.for_statement(handler);
        }
        if self.match_one(TokenType::If) {
            return self.if_statement(handler);
        }
        if self.match_one(TokenType::Print) {
            return self.print_statement(handler);
        }
        if self.match_one(TokenType::While) {
            return self.while_statement(handler);
        }
        if self.match_one(TokenType::LeftBrace) {
            return match self.block(handler) {
                Result::Ok(statements) => Result::Ok(Stmt::Block(Block { statements })),
                Result::Err(e) => Result::Err(e),
            };
        }
        self.expression_statement(handler)
    }

    #[verifier::rlimit(100)]
    #[verifier::spinoff_prover]
    fn declaration(&mut self, handler: &mut SimpleErrorHandler) -> (r: Result<Stmt, ParserError>)
        requires
            old(self).wf(),
        ensures
            final(self).wf(),
            final(self).tokens == old(self).tokens,
            final(handler).had_runtime_error == old(handler).had_runtime_error,
            stmt_method_post(
                spec_declaration(old(self).toks(), old(self).current as int),
                r,
                old(self).current as int,
                final(self).current as int,
                diagnostics_view(old(handler).diagnostics@),
                diagnostics_view(final(handler).diagnostics@),
                old(handler).had_error,
                final(handler).had_error,
            ),
        decreases remaining(self.toks(), self.current as int), 33int,
    {
        reveal(spec_declaration);
        reveal(spec_statement);
        if self.match_one(TokenType::Var) {
            return self.var_declaration(handler);
        }
        self.statement(handler)
    }

    fn is_at_end(&self) -> (r: bool)
        requires
            self.wf(),
        ensures
            r == spec_is_at_end(self.toks(), self.current as int),
    {
        matches!(self.tokens[self.current].token_type, TokenType::EOF)
    }

    /// After a syntax error: discard tokens until a statement boundary —
    /// just past a `;`, or at a keyword that can begin a declaration — so
    /// that one error is confined to one statement.
    fn synchronize(&mut self)
        requires
            old(self).wf(),
        ensures
            final(self).wf(),
            final(self).tokens == old(self).tokens,
            final(self).current as int == spec_synchronize(old(self).toks(), old(self).current as int),
            spec_is_at_end(old(self).toks(), old(self).current as int) ==> final(self).current
                == old(self).current,
            !spec_is_at_end(old(self).toks(), old(self).current as int) ==> final(self).current
                > old(self).current,
    {
        let ghost toks0 = old(self).toks();
        let ghost pos0 = old(self).current as int;
        if self.is_at_end() {
            return ;
        }
        let n = self.tokens.len();
        proof {
            assert(self.toks().len() == n);
            assert(self.current as int != self.toks().len() - 1);
        }
        self.current = self.current + 1;
        while !self.is_at_end()
            invariant
                self.wf(),
                self.tokens == old(self).tokens,
                toks0 == old(self).toks(),
                0 <= pos0,
                pos0 + 1 <= self.current as int,
                pos0 == old(self).current as int,
                !spec_is_at_end(toks0, pos0),
                spec_synchronize(toks0, pos0) == spec_sync_scan(toks0, pos0 + 1),
                spec_sync_scan(toks0, pos0 + 1) == spec_sync_scan(toks0, self.current as int),
            decreases remaining(toks0, self.current as int),
        {
            if matches!(self.tokens[self.current - 1].token_type, TokenType::Semicolon) {
                return ;
            }
            let t = self.tokens[self.current].token_type;
            if matches!(
                t,
                TokenType::Class | TokenType::Fun | TokenType::Var | TokenType::For | TokenType::If
                    | TokenType::While | TokenType::Print | TokenType::Return
            ) {
                return ;
            }
            let n2 = self.tokens.len();
            proof {
                assert(self.toks().len() == n2);
                assert(self.current as int != self.toks().len() - 1);
            }
            self.current = self.current + 1;
        }
    }

    /// Parse a whole program: declarations until the end of input, exactly
    /// as `spec_parse_tail` describes. A declaration that fails to parse
    /// has its error reported, tokens are discarded to the next statement
    /// boundary, and parsing resumes, so several independent errors can be
    /// reported in one pass; the failed statement contributes nothing to
    /// the result.
    #[verifier::rlimit(100)]
    #[verifier::spinoff_prover]
    pub fn parse(&mut self, handler: &mut SimpleErrorHandler) -> (r: Vec<Stmt>)
        requires
            old(self).wf(),
        ensures
            final(self).wf(),
            stmts_view(r@) == spec_parse_tail(old(self).toks(), old(self).current as int).0,
            diagnostics_view(final(handler).diagnostics@) == diagnostics_view(
                old(handler).diagnostics@,
            ) + parse_reports(spec_parse_tail(old(self).toks(), old(self).current as int).1),
            final(handler).had_error == (old(handler).had_error || spec_parse_tail(
                old(self).toks(),
                old(self).current as int,
            ).1.len() > 0),
            final(handler).had_runtime_error == old(handler).had_runtime_error,
    {
        let ghost toks0 = old(self).toks();
        let ghost pos0 = old(self).current as int;
        let ghost full = spec_parse_tail(toks0, pos0);
        let ghost mut errs_acc: Seq<(TokenModel, Seq<char>)> = Seq::empty();
        let mut statements: Vec<Stmt> = Vec::new();
        proof {
            assert(stmts_view(statements@) =~= Seq::<StmtModel>::empty());
            assert(parse_reports(errs_acc) =~= Seq::<DiagnosticModel>::empty());
            assert(diagnostics_view(handler.diagnostics@) =~= diagnostics_view(
                handler.diagnostics@,
            ) + parse_reports(errs_acc));
            assert(full.0 =~= stmts_view(statements@) + spec_parse_tail(toks0, pos0).0);
            assert(full.1 =~= errs_acc + spec_parse_tail(toks0, pos0).1);
        }
        while !self.is_at_end()
            invariant
                self.wf(),
                self.tokens == old(self).tokens,
                toks0 == old(self).toks(),
                pos0 <= self.current as int,
                full == spec_parse_tail(toks0, pos0),
                full.0 == stmts_view(statements@) + spec_parse_tail(
                    toks0,
                    self.current as int,
                ).0,
                full.1 == errs_acc + spec_parse_tail(toks0, self.current as int).1,
                diagnostics_view(handler.diagnostics@) == diagnostics_view(
                    old(handler).diagnostics@,
                ) + parse_reports(errs_acc),
                handler.had_error == (old(handler).had_error || errs_acc.len() > 0),
                handler.had_runtime_error == old(handler).had_runtime_error,
            decreases remaining(toks0, self.current as int),
        {
            let ghost cur0 = self.current as int;
            let ghost stmts_before = stmts_view(statements@);
            let ghost diags_before = diagnostics_view(handler.diagnostics@);
            match self.declaration(handler) {
                Result::Ok(st) => {
                    let ghost p = self.current as int;
                    let ghost rest = spec_parse_tail(toks0, p);
                    proof {
                        assert(past(p, cur0) == p);
                        assert(spec_parse_tail(toks0, cur0).0 == seq![st@] + rest.0);
                        assert(spec_parse_tail(toks0, cur0).1 == rest.1);
                    }
                    let ghost before = statements@;
                    statements.push(st);
                    proof {
                        assert(statements@.drop_last() =~= before);
                        assert(stmts_view(statements@) =~= stmts_view(before).push(
                            statements@.last()@,
                        ));
                        assert(stmts_view(before).push(st@) + rest.0 =~= stmts_view(before) + (seq![
                            st@,
                        ] + rest.0));
                    }
                },
                Result::Err(_) => {
                    let ghost p = self.current as int;
                    let ghost o = spec_declaration(toks0, cur0);
                    self.synchronize();
                    proof {
                        let e = (o->token, o->message);
                        let sync = spec_synchronize(toks0, p);
                        assert(self.current as int == sync);
                        assert(sync > cur0);
                        assert(past(sync, cur0) == sync);
                        let rest = spec_parse_tail(toks0, sync);
                        assert(spec_parse_tail(toks0, cur0).0 == rest.0);
                        assert(spec_parse_tail(toks0, cur0).1 == seq![e] + rest.1);
                        let d = DiagnosticModel::Report {
                            line: e.0.line,
                            location: parse_error_location(e.0),
                            message: e.1,
                        };
                        assert(errs_acc.push(e) + rest.1 =~= errs_acc + (seq![e] + rest.1));
                        assert(parse_reports(errs_acc.push(e)) =~= parse_reports(errs_acc).push(d));
                        errs_acc = errs_acc.push(e);
                    }
                },
            }
        }
        proof {
            assert(spec_parse_tail(toks0, self.current as int).0 =~= Seq::<StmtModel>::empty());
            assert(spec_parse_tail(toks0, self.current as int).1 =~= Seq::<
                (TokenModel, Seq<char>),
            >::empty());
            assert(full.0 =~= stmts_view(statements@));
            assert(full.1 =~= errs_acc);
        }
        statements
    }

}

} // verus!
