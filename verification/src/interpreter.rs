use crate::environment::{
    env_assign, env_define, env_lookup, lemma_env_assign_lookup, EnvModel, Environment,
};
use crate::expr::{Binary, Expr, ExprModel, Logical, Unary, Variable};
use crate::num::{
    add_bits, div_bits, ge_bits, gt_bits, le_bits, lt_bits, mul_bits, neg_bits, num_add, num_div,
    num_ge, num_gt, num_le, num_lt, num_mul, num_neg, num_sub, sub_bits,
};
use crate::stmt::{lemma_stmts_view_index, stmts_view, Block, Expression, If, Print, Stmt,
    StmtModel, Var, While};
use crate::token::{LiteralModel, Token, TokenModel, TokenType};
use crate::value::{spec_display, spec_truthy, spec_values_equal, Value, ValueModel};
use vstd::prelude::*;
use vstd::string::StringExecFns;

verus! {

/// A runtime error: the offending token (for its line) and a message.
pub struct InterpreterError {
    pub token: Token,
    pub message: String,
}

/// The mathematical shape of a runtime error.
pub struct ErrorModel {
    pub token: TokenModel,
    pub message: Seq<char>,
}

impl View for InterpreterError {
    type V = ErrorModel;

    open spec fn view(&self) -> ErrorModel {
        ErrorModel { token: self.token@, message: self.message@ }
    }
}

impl InterpreterError {
    pub fn new(token: Token, message: &str) -> (r: InterpreterError)
        ensures
            r@ == (ErrorModel { token: token@, message: message@ }),
    {
        InterpreterError { token, message: message.to_owned() }
    }
}

/// What stops a run early: a runtime error, or the step budget running out.
pub enum Halt {
    Error(InterpreterError),
    OutOfFuel,
}

/// The message of the error raised for an undefined variable `name`.
pub open spec fn undefined_variable_message(name: Seq<char>) -> Seq<char> {
    "Undefined variable '"@ + name + "'."@
}

/// The value a literal denotes.
pub open spec fn literal_value(lit: LiteralModel) -> ValueModel {
    match lit {
        LiteralModel::Number(bits) => ValueModel::Number(bits),
        LiteralModel::Str(s) => ValueModel::Str(s),
        LiteralModel::True => ValueModel::Boolean(true),
        LiteralModel::False => ValueModel::Boolean(false),
        LiteralModel::Nil => ValueModel::Nil,
    }
}

/// What a unary operator yields on an evaluated operand: `!` negates the
/// operand's truthiness; `-` negates a number and rejects anything else.
pub open spec fn spec_unary_op(op: TokenType, v: ValueModel) -> Result<ValueModel, Seq<char>> {
    match op {
        TokenType::Bang => Result::Ok(ValueModel::Boolean(!spec_truthy(v))),
        TokenType::Minus => match v {
            ValueModel::Number(n) => Result::Ok(ValueModel::Number(neg_bits(n))),
            _ => Result::Err("Operand must be a number."@),
        },
        _ => Result::Err("Operator in a unary expression must be a '!' or '-'"@),
    }
}

/// What a binary operator yields on two evaluated operands. Equality applies
/// to any pair of values and never errs; the arithmetic and comparison
/// operators require two numbers, except `+`, which also concatenates two
/// strings; every other combination is a runtime error.
pub open spec fn spec_binary_op(l: ValueModel, op: TokenType, r: ValueModel) -> Result<
    ValueModel,
    Seq<char>,
> {
    if op == TokenType::BangEqual {
        Result::Ok(ValueModel::Boolean(!spec_values_equal(l, r)))
    } else if op == TokenType::EqualEqual {
        Result::Ok(ValueModel::Boolean(spec_values_equal(l, r)))
    } else {
        match (l, r) {
            (ValueModel::Number(a), ValueModel::Number(b)) => match op {
                TokenType::Greater => Result::Ok(ValueModel::Boolean(gt_bits(a, b))),
                TokenType::GreaterEqual => Result::Ok(ValueModel::Boolean(ge_bits(a, b))),
                TokenType::Less => Result::Ok(ValueModel::Boolean(lt_bits(a, b))),
                TokenType::LessEqual => Result::Ok(ValueModel::Boolean(le_bits(a, b))),
                TokenType::Minus => Result::Ok(ValueModel::Number(sub_bits(a, b))),
                TokenType::Plus => Result::Ok(ValueModel::Number(add_bits(a, b))),
                TokenType::Slash => Result::Ok(ValueModel::Number(div_bits(a, b))),
                TokenType::Star => Result::Ok(ValueModel::Number(mul_bits(a, b))),
                _ => Result::Err("Invalid infix operator for two numbers"@),
            },
            (ValueModel::Str(a), ValueModel::Str(b)) => if op == TokenType::Plus {
                Result::Ok(ValueModel::Str(a + b))
            } else {
                Result::Err("Invalid infix operator for two strings"@)
            },
            _ => Result::Err("Invalid binary operation"@),
        }
    }
}

/// The outcome of evaluating an expression: its value, or a runtime error;
/// either way, the environment as the evaluation left it (an assignment in
/// a subexpression persists even when a later operand errs).
pub enum EvalOutcome {
    Done { v: ValueModel, env: EnvModel },
    Fault { err: ErrorModel, env: EnvModel },
}

/// The environment an evaluation outcome leaves behind.
pub open spec fn eval_env(o: EvalOutcome) -> EnvModel {
    match o {
        EvalOutcome::Done { v, env } => env,
        EvalOutcome::Fault { err, env } => env,
    }
}

/// Evaluation of an expression against an environment: operands evaluate
/// left before right; `and`/`or` short-circuit and return the deciding
/// operand itself; a variable read or assignment to an undefined name errs.
pub open spec fn spec_eval(env: EnvModel, e: ExprModel) -> EvalOutcome
    decreases e,
{
    match e {
        ExprModel::Literal { lit } => EvalOutcome::Done { v: literal_value(lit), env },
        ExprModel::Grouping { expression } => spec_eval(env, *expression),
        ExprModel::Unary { operator, right } => match spec_eval(env, *right) {
            EvalOutcome::Done { v, env: env1 } => match spec_unary_op(operator.token_type, v) {
                Result::Ok(v2) => EvalOutcome::Done { v: v2, env: env1 },
                Result::Err(msg) => EvalOutcome::Fault {
                    err: ErrorModel { token: operator, message: msg },
                    env: env1,
                },
            },
            err => err,
        },
        ExprModel::Binary { left, operator, right } => match spec_eval(env, *left) {
            EvalOutcome::Done { v: lv, env: env1 } => match spec_eval(env1, *right) {
                EvalOutcome::Done { v: rv, env: env2 } => match spec_binary_op(
                    lv,
                    operator.token_type,
                    rv,
                ) {
                    Result::Ok(v2) => EvalOutcome::Done { v: v2, env: env2 },
                    Result::Err(msg) => EvalOutcome::Fault {
                        err: ErrorModel { token: operator, message: msg },
                        env: env2,
                    },
                },
                err => err,
            },
            err => err,
        },
        ExprModel::Logical { left, operator, right } => match spec_eval(env, *left) {
            EvalOutcome::Done { v, env: env1 } => {
                let keep_left = if operator.token_type == TokenType::Or {
                    spec_truthy(v)
                } else {
                    !spec_truthy(v)
                };
                if keep_left {
                    EvalOutcome::Done { v, env: env1 }
                } else {
                    spec_eval(env1, *right)
                }
            },
            err => err,
        },
        ExprModel::Variable { name } => match env_lookup(env, name.lexeme) {
            Option::Some(v) => EvalOutcome::Done { v, env },
            Option::None => EvalOutcome::Fault {
                err: ErrorModel {
                    token: name,
                    message: undefined_variable_message(name.lexeme),
                },
                env,
            },
        },
        ExprModel::Assign { name, value } => match spec_eval(env, *value) {
            EvalOutcome::Done { v, env: env1 } => match env_assign(env1, name.lexeme, v) {
                Option::Some(env2) => EvalOutcome::Done { v, env: env2 },
                Option::None => EvalOutcome::Fault {
                    err: ErrorModel {
                        token: name,
                        message: undefined_variable_message(name.lexeme),
                    },
                    env: env1,
                },
            },
            err => err,
        },
    }
}

/// The outcome of running statements: the environment and the lines printed
/// so far, and whether the run completed, hit a runtime error, or exhausted
/// its step budget.
pub enum ExecOutcome {
    Done { env: EnvModel, out: Seq<Seq<char>> },
    Fault { err: ErrorModel, env: EnvModel, out: Seq<Seq<char>> },
    OutOfFuel { env: EnvModel, out: Seq<Seq<char>> },
}

/// The environment an execution outcome leaves behind.
pub open spec fn exec_env(o: ExecOutcome) -> EnvModel {
    match o {
        ExecOutcome::Done { env, out } => env,
        ExecOutcome::Fault { err, env, out } => env,
        ExecOutcome::OutOfFuel { env, out } => env,
    }
}

/// Execution of one statement. A block runs its statements in a fresh
/// innermost scope, dropped however the block exits; `print` appends the
/// value's display form to the output; each round of a `while` loop costs
/// one unit of fuel, so execution is total.
pub open spec fn spec_exec(env: EnvModel, out: Seq<Seq<char>>, s: StmtModel, fuel: nat) -> ExecOutcome
    decreases fuel, s, 0int,
{
    match s {
        StmtModel::Expression { expression } => match spec_eval(env, *expression) {
            EvalOutcome::Done { v, env: env1 } => ExecOutcome::Done { env: env1, out },
            EvalOutcome::Fault { err, env: env1 } => ExecOutcome::Fault { err, env: env1, out },
        },
        StmtModel::Print { expression } => match spec_eval(env, *expression) {
            EvalOutcome::Done { v, env: env1 } => ExecOutcome::Done {
                env: env1,
                out: out.push(spec_display(v)),
            },
            EvalOutcome::Fault { err, env: env1 } => ExecOutcome::Fault { err, env: env1, out },
        },
        StmtModel::Var { name, initializer } => match spec_eval(env, *initializer) {
            EvalOutcome::Done { v, env: env1 } => ExecOutcome::Done {
                env: env_define(env1, name.lexeme, v),
                out,
            },
            EvalOutcome::Fault { err, env: env1 } => ExecOutcome::Fault { err, env: env1, out },
        },
        StmtModel::Block { statements } => match spec_exec_seq(
            env.push(Seq::empty()),
            out,
            statements,
            0,
            fuel,
        ) {
            ExecOutcome::Done { env: env1, out: out1 } => ExecOutcome::Done {
                env: env1.drop_last(),
                out: out1,
            },
            ExecOutcome::Fault { err, env: env1, out: out1 } => ExecOutcome::Fault {
                err,
                env: env1.drop_last(),
                out: out1,
            },
            ExecOutcome::OutOfFuel { env: env1, out: out1 } => ExecOutcome::OutOfFuel {
                env: env1.drop_last(),
                out: out1,
            },
        },
        StmtModel::If { condition, then_branch, else_branch } => match spec_eval(env, *condition) {
            EvalOutcome::Done { v, env: env1 } => if spec_truthy(v) {
                spec_exec(env1, out, *then_branch, fuel)
            } else {
                match else_branch {
                    Option::Some(e) => spec_exec(env1, out, *e, fuel),
                    Option::None => ExecOutcome::Done { env: env1, out },
                }
            },
            EvalOutcome::Fault { err, env: env1 } => ExecOutcome::Fault { err, env: env1, out },
        },
        StmtModel::While { condition, body } => match spec_eval(env, *condition) {
            EvalOutcome::Done { v, env: env1 } => if !spec_truthy(v) {
                ExecOutcome::Done { env: env1, out }
            } else if fuel == 0 {
                ExecOutcome::OutOfFuel { env: env1, out }
            } else {
                match spec_exec(env1, out, *body, fuel) {
                    ExecOutcome::Done { env: env2, out: out2 } => spec_exec(
                        env2,
                        out2,
                        s,
                        (fuel - 1) as nat,
                    ),
                    other => other,
                }
            },
            EvalOutcome::Fault { err, env: env1 } => ExecOutcome::Fault { err, env: env1, out },
        },
    }
}

/// Execution of the statements of `ss` from position `i` on, in order,
/// stopping at the first error or at fuel exhaustion.
pub open spec fn spec_exec_seq(
    env: EnvModel,
    out: Seq<Seq<char>>,
    ss: Seq<StmtModel>,
    i: int,
    fuel: nat,
) -> ExecOutcome
    decreases fuel, ss, ss.len() - i,
{
    if i < 0 || i >= ss.len() {
        ExecOutcome::Done { env, out }
    } else {
        match spec_exec(env, out, ss[i], fuel) {
            ExecOutcome::Done { env: env1, out: out1 } => spec_exec_seq(env1, out1, ss, i + 1, fuel),
            other => other,
        }
    }
}

/// The printed lines under a vector of output lines.
pub open spec fn output_view(out: Seq<String>) -> Seq<Seq<char>> {
    out.map(|i: int, s: String| s@)
}

/// The evaluator: walks statements and expressions, reading and mutating
/// its chain of scopes, and collects the lines that `print` writes.
pub struct Interpreter {
    pub environment: Environment,
    pub output: Vec<String>,
}

impl Interpreter {
    /// An interpreter over the given (usually global) environment, with
    /// nothing printed yet.
    pub fn new(environment: Environment) -> (r: Interpreter)
        ensures
            r.environment == environment,
            r.output@ == Seq::<String>::empty(),
    {
        Interpreter { environment, output: Vec::new() }
    }

    fn visit_assign_expr(&mut self, expr: &crate::expr::Assign) -> (r: Result<
        Value,
        InterpreterError,
    >)
        requires
            old(self).environment.well_formed(),
        ensures
            final(self).environment.well_formed(),
            final(self).environment@.len() == old(self).environment@.len(),
            final(self).output == old(self).output,
            ({
                let o = spec_eval(
                    old(self).environment@,
                    ExprModel::Assign {
                        name: expr.name@,
                        value: Box::new((*expr.value)@),
                    },
                );
                match r {
                    Result::Ok(v) => o == (EvalOutcome::Done {
                        v: v@,
                        env: final(self).environment@,
                    }),
                    Result::Err(e) => o == (EvalOutcome::Fault {
                        err: e@,
                        env: final(self).environment@,
                    }),
                }
            }),
        decreases *expr,
    {
        let value = match self.evaluate(&expr.value) {
            Result::Ok(v) => v,
            Result::Err(e) => {
                return Result::Err(e);
            },
        };
        match self.environment.assign(&expr.name, value.duplicate()) {
            Option::Some(_) => Result::Ok(value),
            Option::None => {
                proof {
                    lemma_env_assign_lookup(
                        self.environment@,
                        self.environment@.len() as int,
                        expr.name@.lexeme,
                        value@,
                    );
                }
                let mut message = "Undefined variable '".to_owned();
                message.append(expr.name.lexeme.as_str());
                message.append("'.");
                Result::Err(InterpreterError { token: expr.name.duplicate(), message })
            },
        }
    }

    fn visit_binary_expr(&mut self, expr: &Binary) -> (r: Result<Value, InterpreterError>)
        requires
            old(self).environment.well_formed(),
        ensures
            final(self).environment.well_formed(),
            final(self).environment@.len() == old(self).environment@.len(),
            final(self).output == old(self).output,
            ({
                let o = spec_eval(
                    old(self).environment@,
                    ExprModel::Binary {
                        left: Box::new((*expr.left)@),
                        operator: expr.operator@,
                        right: Box::new((*expr.right)@),
                    },
                );
                match r {
                    Result::Ok(v) => o == (EvalOutcome::Done {
                        v: v@,
                        env: final(self).environment@,
                    }),
                    Result::Err(e) => o == (EvalOutcome::Fault {
                        err: e@,
                        env: final(self).environment@,
                    }),
                }
            }),
        decreases *expr,
    {
        let left = match self.evaluate(&expr.left) {
            Result::Ok(v) => v,
            Result::Err(e) => {
                return Result::Err(e);
            },
        };
        let right = match self.evaluate(&expr.right) {
            Result::Ok(v) => v,
            Result::Err(e) => {
                return Result::Err(e);
            },
        };
        binary_op(left, &expr.operator, right)
    }

    fn visit_logical_expr(&mut self, expr: &Logical) -> (r: Result<Value, InterpreterError>)
        requires
            old(self).environment.well_formed(),
        ensures
            final(self).environment.well_formed(),
            final(self).environment@.len() == old(self).environment@.len(),
            final(self).output == old(self).output,
            ({
                let o = spec_eval(
                    old(self).environment@,
                    ExprModel::Logical {
                        left: Box::new((*expr.left)@),
                        operator: expr.operator@,
                        right: Box::new((*expr.right)@),
                    },
                );
                match r {
                    Result::Ok(v) => o == (EvalOutcome::Done {
                        v: v@,
                        env: final(self).environment@,
                    }),
                    Result::Err(e) => o == (EvalOutcome::Fault {
                        err: e@,
                        env: final(self).environment@,
                    }),
                }
            }),
        decreases *expr,
    {
        let left = match self.evaluate(&expr.left) {
            Result::Ok(v) => v,
            Result::Err(e) => {
                return Result::Err(e);
            },
        };
        let take_left = if matches!(expr.operator.token_type, TokenType::Or) {
            left.is_truthy()
        } else {
            !left.is_truthy()
        };
        if take_left {
            Result::Ok(left)
        } else {
            self.evaluate(&expr.right)
        }
    }

    fn visit_unary_expr(&mut self, expr: &Unary) -> (r: Result<Value, InterpreterError>)
        requires
            old(self).environment.well_formed(),
        ensures
            final(self).environment.well_formed(),
            final(self).environment@.len() == old(self).environment@.len(),
            final(self).output == old(self).output,
            ({
                let o = spec_eval(
                    old(self).environment@,
                    ExprModel::Unary {
                        operator: expr.operator@,
                        right: Box::new((*expr.right)@),
                    },
                );
                match r {
                    Result::Ok(v) => o == (EvalOutcome::Done {
                        v: v@,
                        env: final(self).environment@,
                    }),
                    Result::Err(e) => o == (EvalOutcome::Fault {
                        err: e@,
                        env: final(self).environment@,
                    }),
                }
            }),
        decreases *expr,
    {
        let right = match self.evaluate(&expr.right) {
            Result::Ok(v) => v,
            Result::Err(e) => {
                return Result::Err(e);
            },
        };
        match expr.operator.token_type {
            TokenType::Bang => Result::Ok(Value::Boolean(!right.is_truthy())),
            TokenType::Minus => match right {
                Value::Number(n) => Result::Ok(Value::Number(num_neg(n))),
                _ => Result::Err(
                    InterpreterError::new(expr.operator.duplicate(), "Operand must be a number."),
                ),
            },
            _ => Result::Err(
                InterpreterError::new(
                    expr.operator.duplicate(),
                    "Operator in a unary expression must be a '!' or '-'",
                ),
            ),
        }
    }

    fn visit_variable_expr(&mut self, expr: &Variable) -> (r: Result<Value, InterpreterError>)
        requires
            old(self).environment.well_formed(),
        ensures
            final(self).environment.well_formed(),
            final(self).environment@.len() == old(self).environment@.len(),
            final(self).output == old(self).output,
            *final(self) == *old(self),
            ({
                let o = spec_eval(old(self).environment@, ExprModel::Variable { name: expr.name@ });
                match r {
                    Result::Ok(v) => o == (EvalOutcome::Done {
                        v: v@,
                        env: final(self).environment@,
                    }),
                    Result::Err(e) => o == (EvalOutcome::Fault {
                        err: e@,
                        env: final(self).environment@,
                    }),
                }
            }),
    {
        match self.environment.get(&expr.name) {
            Option::Some(v) => Result::Ok(v),
            Option::None => {
                let mut message = "Undefined variable '".to_owned();
                message.append(expr.name.lexeme.as_str());
                message.append("'.");
                Result::Err(InterpreterError { token: expr.name.duplicate(), message })
            },
        }
    }

    /// Expression evaluation: the returned value or error, and the
    /// environment the evaluation leaves behind, are exactly those of
    /// `spec_eval`; nothing is printed.
    fn evaluate(&mut self, expr: &Expr) -> (r: Result<Value, InterpreterError>)
        requires
            old(self).environment.well_formed(),
        ensures
            final(self).environment.well_formed(),
            final(self).environment@.len() == old(self).environment@.len(),
            final(self).output == old(self).output,
            ({
                let o = spec_eval(old(self).environment@, expr@);
                match r {
                    Result::Ok(v) => o == (EvalOutcome::Done {
                        v: v@,
                        env: final(self).environment@,
                    }),
                    Result::Err(e) => o == (EvalOutcome::Fault {
                        err: e@,
                        env: final(self).environment@,
                    }),
                }
            }),
        decreases *expr,
    {
        match expr {
            Expr::Assign(e) => self.visit_assign_expr(e),
            Expr::Binary(e) => self.visit_binary_expr(e),
            Expr::Grouping(e) => self.evaluate(&e.expression),
            Expr::Literal(e) => Result::Ok(
                match &e.value {
                    crate::token::Literal::Number(bits) => Value::Number(*bits),
                    crate::token::Literal::Str(s) => Value::Str(s.clone()),
                    crate::token::Literal::True => Value::Boolean(true),
                    crate::token::Literal::False => Value::Boolean(false),
                    crate::token::Literal::Nil => Value::Nil,
                },
            ),
            Expr::Logical(e) => self.visit_logical_expr(e),
            Expr::Unary(e) => self.visit_unary_expr(e),
            Expr::Variable(e) => self.visit_variable_expr(e),
        }
    }
}

/// How an execution outcome shows up in the interpreter: the run's result,
/// the environment and the output as the run left them.
pub open spec fn exec_outcome_matches(
    o: ExecOutcome,
    r: Result<(), Halt>,
    env: EnvModel,
    out: Seq<Seq<char>>,
) -> bool {
    match r {
        Result::Ok(u) => o == (ExecOutcome::Done { env, out }),
        Result::Err(h) => match h {
            Halt::Error(e) => o == (ExecOutcome::Fault { err: e@, env, out }),
            Halt::OutOfFuel => o == (ExecOutcome::OutOfFuel { env, out }),
        },
    }
}

impl Interpreter {
    fn visit_expression_stmt(&mut self, stmt: &Expression) -> (r: Result<(), Halt>)
        requires
            old(self).environment.well_formed(),
        ensures
            final(self).environment.well_formed(),
            final(self).environment@.len() == old(self).environment@.len(),
            exec_outcome_matches(
                spec_exec(
                    old(self).environment@,
                    output_view(old(self).output@),
                    StmtModel::Expression { expression: Box::new((*stmt.expression)@) },
                    0,
                ),
                r,
                final(self).environment@,
                output_view(final(self).output@),
            ),
    {
        match self.evaluate(&stmt.expression) {
            Result::Ok(_) => Result::Ok(()),
            Result::Err(e) => Result::Err(Halt::Error(e)),
        }
    }

    fn visit_print_stmt(&mut self, stmt: &Print) -> (r: Result<(), Halt>)
        requires
            old(self).environment.well_formed(),
        ensures
            final(self).environment.well_formed(),
            final(self).environment@.len() == old(self).environment@.len(),
            exec_outcome_matches(
                spec_exec(
                    old(self).environment@,
                    output_view(old(self).output@),
                    StmtModel::Print { expression: Box::new((*stmt.expression)@) },
                    0,
                ),
                r,
                final(self).environment@,
                output_view(final(self).output@),
            ),
    {
        match self.evaluate(&stmt.expression) {
            Result::Ok(value) => {
                let line = value.to_display_string();
                let ghost before = self.output@;
                self.output.push(line);
                proof {
                    assert(output_view(self.output@) =~= output_view(before).push(line@));
                }
                Result::Ok(())
            },
            Result::Err(e) => Result::Err(Halt::Error(e)),
        }
    }

    fn visit_var_stmt(&mut self, stmt: &Var) -> (r: Result<(), Halt>)
        requires
            old(self).environment.well_formed(),
        ensures
            final(self).environment.well_formed(),
            final(self).environment@.len() == old(self).environment@.len(),
            exec_outcome_matches(
                spec_exec(
                    old(self).environment@,
                    output_view(old(self).output@),
                    StmtModel::Var {
                        name: stmt.name@,
                        initializer: Box::new((*stmt.initializer)@),
                    },
                    0,
                ),
                r,
                final(self).environment@,
                output_view(final(self).output@),
            ),
    {
        match self.evaluate(&stmt.initializer) {
            Result::Ok(value) => {
                self.environment.define(stmt.name.lexeme.as_str(), value);
                Result::Ok(())
            },
            Result::Err(e) => Result::Err(Halt::Error(e)),
        }
    }

    fn visit_block_stmt(&mut self, stmt: &Block, fuel: u64) -> (r: Result<(), Halt>)
        requires
            old(self).environment.well_formed(),
        ensures
            final(self).environment.well_formed(),
            final(self).environment@.len() == old(self).environment@.len(),
            exec_outcome_matches(
                spec_exec(
                    old(self).environment@,
                    output_view(old(self).output@),
                    StmtModel::Block { statements: stmts_view(stmt.statements@) },
                    fuel as nat,
                ),
                r,
                final(self).environment@,
                output_view(final(self).output@),
            ),
        decreases fuel, *stmt, 0int,
    {
        let ghost env0 = old(self).environment@;
        let ghost out0 = output_view(old(self).output@);
        let ghost sv = stmts_view(stmt.statements@);
        proof {
            lemma_stmts_view_index(stmt.statements@);
        }
        self.environment.push_scope();
        let n = stmt.statements.len();
        let mut k: usize = 0;
        while k < n
            invariant
                k <= n,
                n == stmt.statements@.len(),
                env0 == old(self).environment@,
                out0 == output_view(old(self).output@),
                env0.len() >= 1,
                sv == stmts_view(stmt.statements@),
                sv.len() == n,
                forall|i: int|
                    0 <= i < n ==> sv[i] == crate::stmt::stmt_view(#[trigger] stmt.statements@[i]),
                self.environment.well_formed(),
                self.environment@.len() == env0.len() + 1,
                spec_exec_seq(env0.push(Seq::empty()), out0, sv, 0, fuel as nat) == spec_exec_seq(
                    self.environment@,
                    output_view(self.output@),
                    sv,
                    k as int,
                    fuel as nat,
                ),
            decreases n - k,
        {
            match self.execute(&stmt.statements[k], fuel) {
                Result::Ok(_) => {},
                Result::Err(h) => {
                    self.environment.pop_scope();
                    return Result::Err(h);
                },
            }
            k = k + 1;
        }
        self.environment.pop_scope();
        Result::Ok(())
    }

    fn visit_if_stmt(&mut self, stmt: &If, fuel: u64) -> (r: Result<(), Halt>)
        requires
            old(self).environment.well_formed(),
        ensures
            final(self).environment.well_formed(),
            final(self).environment@.len() == old(self).environment@.len(),
            exec_outcome_matches(
                spec_exec(
                    old(self).environment@,
                    output_view(old(self).output@),
                    StmtModel::If {
                        condition: Box::new((*stmt.condition)@),
                        then_branch: Box::new((*stmt.then_branch)@),
                        else_branch: match stmt.else_branch {
                            Option::Some(e) => Option::Some(Box::new((*e)@)),
                            Option::None => Option::None,
                        },
                    },
                    fuel as nat,
                ),
                r,
                final(self).environment@,
                output_view(final(self).output@),
            ),
        decreases fuel, *stmt, 0int,
    {
        let condition = match self.evaluate(&stmt.condition) {
            Result::Ok(v) => v,
            Result::Err(e) => {
                return Result::Err(Halt::Error(e));
            },
        };
        if condition.is_truthy() {
            self.execute(&stmt.then_branch, fuel)
        } else {
            match &stmt.else_branch {
                Option::Some(else_branch) => self.execute(else_branch, fuel),
                Option::None => Result::Ok(()),
            }
        }
    }

    fn visit_while_stmt(&mut self, stmt: &While, fuel: u64) -> (r: Result<(), Halt>)
        requires
            old(self).environment.well_formed(),
        ensures
            final(self).environment.well_formed(),
            final(self).environment@.len() == old(self).environment@.len(),
            exec_outcome_matches(
                spec_exec(
                    old(self).environment@,
                    output_view(old(self).output@),
                    StmtModel::While {
                        condition: Box::new((*stmt.condition)@),
                        body: Box::new((*stmt.body)@),
                    },
                    fuel as nat,
                ),
                r,
                final(self).environment@,
                output_view(final(self).output@),
            ),
        decreases fuel, *stmt, 0int,
    {
        let ghost w = StmtModel::While {
            condition: Box::new((*stmt.condition)@),
            body: Box::new((*stmt.body)@),
        };
        let ghost env0 = old(self).environment@;
        let ghost out0 = output_view(old(self).output@);
        let mut f = fuel;
        loop
            invariant
                f <= fuel,
                env0 == old(self).environment@,
                out0 == output_view(old(self).output@),
                w == (StmtModel::While {
                    condition: Box::new((*stmt.condition)@),
                    body: Box::new((*stmt.body)@),
                }),
                self.environment.well_formed(),
                self.environment@.len() == env0.len(),
                spec_exec(env0, out0, w, fuel as nat) == spec_exec(
                    self.environment@,
                    output_view(self.output@),
                    w,
                    f as nat,
                ),
            decreases f,
        {
            let condition = match self.evaluate(&stmt.condition) {
                Result::Ok(v) => v,
                Result::Err(e) => {
                    return Result::Err(Halt::Error(e));
                },
            };
            if !condition.is_truthy() {
                return Result::Ok(());
            }
            if f == 0 {
                return Result::Err(Halt::OutOfFuel);
            }
            match self.execute(&stmt.body, f) {
                Result::Ok(_) => {},
                Result::Err(h) => {
                    return Result::Err(h);
                },
            }
            f = f - 1;
        }
    }

    /// Statement execution: the run's result, the printed lines and the
    /// final environment are exactly those of `spec_exec` at the given
    /// step budget.
    fn execute(&mut self, statement: &Stmt, fuel: u64) -> (r: Result<(), Halt>)
        requires
            old(self).environment.well_formed(),
        ensures
            final(self).environment.well_formed(),
            final(self).environment@.len() == old(self).environment@.len(),
            exec_outcome_matches(
                spec_exec(
                    old(self).environment@,
                    output_view(old(self).output@),
                    statement@,
                    fuel as nat,
                ),
                r,
                final(self).environment@,
                output_view(final(self).output@),
            ),
        decreases fuel, *statement, 1int,
    {
        match statement {
            Stmt::Block(s) => self.visit_block_stmt(s, fuel),
            Stmt::Expression(s) => self.visit_expression_stmt(s),
            Stmt::If(s) => self.visit_if_stmt(s, fuel),
            Stmt::Print(s) => self.visit_print_stmt(s),
            Stmt::Var(s) => self.visit_var_stmt(s),
            Stmt::While(s) => self.visit_while_stmt(s, fuel),
        }
    }

    /// Run a program: execute its statements in order, stopping at the
    /// first runtime error (returned for the caller to report) or when the
    /// step budget runs out. The printed lines accumulate in `output`.
    pub fn interpret(&mut self, statements: &Vec<Stmt>, fuel: u64) -> (r: Result<(), Halt>)
        requires
            old(self).environment.well_formed(),
        ensures
            final(self).environment.well_formed(),
            final(self).environment@.len() == old(self).environment@.len(),
            exec_outcome_matches(
                spec_exec_seq(
                    old(self).environment@,
                    output_view(old(self).output@),
                    stmts_view(statements@),
                    0,
                    fuel as nat,
                ),
                r,
                final(self).environment@,
                output_view(final(self).output@),
            ),
    {
        let ghost env0 = old(self).environment@;
        let ghost out0 = output_view(old(self).output@);
        let ghost sv = stmts_view(statements@);
        proof {
            lemma_stmts_view_index(statements@);
        }
        let n = statements.len();
        let mut k: usize = 0;
        while k < n
            invariant
                k <= n,
                n == statements@.len(),
                env0 == old(self).environment@,
                out0 == output_view(old(self).output@),
                env0.len() >= 1,
                sv == stmts_view(statements@),
                sv.len() == n,
                forall|i: int|
                    0 <= i < n ==> sv[i] == crate::stmt::stmt_view(#[trigger] statements@[i]),
                self.environment.well_formed(),
                self.environment@.len() == env0.len(),
                spec_exec_seq(env0, out0, sv, 0, fuel as nat) == spec_exec_seq(
                    self.environment@,
                    output_view(self.output@),
                    sv,
                    k as int,
                    fuel as nat,
                ),
            decreases n - k,
        {
            match self.execute(&statements[k], fuel) {
                Result::Ok(_) => {},
                Result::Err(h) => {
                    return Result::Err(h);
                },
            }
            k = k + 1;
        }
        Result::Ok(())
    }
}

/// What a binary operator yields on two evaluated operands, as
/// `spec_binary_op` says; the operator token only names the operation and
/// is kept for the error's diagnostics.
fn binary_op(left: Value, operator: &Token, right: Value) -> (r: Result<Value, InterpreterError>)
    ensures
        match spec_binary_op(left@, operator@.token_type, right@) {
            Result::Ok(v) => r is Ok && r->Ok_0@ == v,
            Result::Err(msg) => r is Err && r->Err_0@ == (ErrorModel {
                token: operator@,
                message: msg,
            }),
        },
{
    match operator.token_type {
        TokenType::BangEqual => Result::Ok(Value::Boolean(!left.equals(&right))),
        TokenType::EqualEqual => Result::Ok(Value::Boolean(left.equals(&right))),
        _ => match (left, right) {
            (Value::Number(a), Value::Number(b)) => match operator.token_type {
                TokenType::Greater => Result::Ok(Value::Boolean(num_gt(a, b))),
                TokenType::GreaterEqual => Result::Ok(Value::Boolean(num_ge(a, b))),
                TokenType::Less => Result::Ok(Value::Boolean(num_lt(a, b))),
                TokenType::LessEqual => Result::Ok(Value::Boolean(num_le(a, b))),
                TokenType::Minus => Result::Ok(Value::Number(num_sub(a, b))),
                TokenType::Plus => Result::Ok(Value::Number(num_add(a, b))),
                TokenType::Slash => Result::Ok(Value::Number(num_div(a, b))),
                TokenType::Star => Result::Ok(Value::Number(num_mul(a, b))),
                _ => Result::Err(
                    InterpreterError::new(
                        operator.duplicate(),
                        "Invalid infix operator for two numbers",
                    ),
                ),
            },
            (Value::Str(a), Value::Str(b)) => match operator.token_type {
                TokenType::Plus => Result::Ok(Value::Str(a.concat(b.as_str()))),
                _ => Result::Err(
                    InterpreterError::new(
                        operator.duplicate(),
                        "Invalid infix operator for two strings",
                    ),
                ),
            },
            _ => Result::Err(
                InterpreterError::new(operator.duplicate(), "Invalid binary operation"),
            ),
        },
    }
}

} // verus!
