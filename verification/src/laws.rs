//! The laws the evaluator obeys, stated over its specification functions
//! and proved once and for all.

use crate::environment::{
    env_assign_from, env_define, env_lookup, lemma_env_assign_lookup, scope_assign, EnvModel,
};
use crate::expr::ExprModel;
use crate::stmt::StmtModel;
use crate::interpreter::{
    eval_env, exec_env, spec_binary_op, spec_eval, spec_exec, spec_exec_seq,
    undefined_variable_message, ErrorModel, EvalOutcome, ExecOutcome,
};
use crate::num::{add_bits, div_bits, ge_bits, gt_bits, le_bits, lt_bits, mul_bits, sub_bits};
use crate::token::{TokenModel, TokenType};
use crate::value::{spec_truthy, spec_values_equal, ValueModel};
use vstd::prelude::*;

verus! {

/// Whether two values are of the same variant (both numbers, both strings,
/// both booleans, or both nil).
pub open spec fn same_variant(a: ValueModel, b: ValueModel) -> bool {
    match (a, b) {
        (ValueModel::Number(_), ValueModel::Number(_)) => true,
        (ValueModel::Str(_), ValueModel::Str(_)) => true,
        (ValueModel::Boolean(_), ValueModel::Boolean(_)) => true,
        (ValueModel::Nil, ValueModel::Nil) => true,
        _ => false,
    }
}

/// On two numbers, every arithmetic and comparison operator is exactly the
/// corresponding IEEE double-precision operation on the operands' bits.
pub proof fn lemma_numeric_ops_are_ieee(a: u64, b: u64)
    ensures
        spec_binary_op(ValueModel::Number(a), TokenType::Plus, ValueModel::Number(b))
            == Result::<ValueModel, Seq<char>>::Ok(ValueModel::Number(add_bits(a, b))),
        spec_binary_op(ValueModel::Number(a), TokenType::Minus, ValueModel::Number(b))
            == Result::<ValueModel, Seq<char>>::Ok(ValueModel::Number(sub_bits(a, b))),
        spec_binary_op(ValueModel::Number(a), TokenType::Star, ValueModel::Number(b))
            == Result::<ValueModel, Seq<char>>::Ok(ValueModel::Number(mul_bits(a, b))),
        spec_binary_op(ValueModel::Number(a), TokenType::Slash, ValueModel::Number(b))
            == Result::<ValueModel, Seq<char>>::Ok(ValueModel::Number(div_bits(a, b))),
        spec_binary_op(ValueModel::Number(a), TokenType::Greater, ValueModel::Number(b))
            == Result::<ValueModel, Seq<char>>::Ok(ValueModel::Boolean(gt_bits(a, b))),
        spec_binary_op(ValueModel::Number(a), TokenType::GreaterEqual, ValueModel::Number(b))
            == Result::<ValueModel, Seq<char>>::Ok(ValueModel::Boolean(ge_bits(a, b))),
        spec_binary_op(ValueModel::Number(a), TokenType::Less, ValueModel::Number(b))
            == Result::<ValueModel, Seq<char>>::Ok(ValueModel::Boolean(lt_bits(a, b))),
        spec_binary_op(ValueModel::Number(a), TokenType::LessEqual, ValueModel::Number(b))
            == Result::<ValueModel, Seq<char>>::Ok(ValueModel::Boolean(le_bits(a, b))),
{
}

/// Unary minus only accepts numbers: when its operand evaluates to a value
/// of any other variant, the expression raises a runtime error carrying the
/// operator token and the message `Operand must be a number.`
pub proof fn lemma_unary_minus_rejects_non_numbers(
    env: EnvModel,
    operator: TokenModel,
    right: ExprModel,
)
    requires
        operator.token_type == TokenType::Minus,
        spec_eval(env, right) is Done,
        !(spec_eval(env, right)->v is Number),
    ensures
        spec_eval(env, ExprModel::Unary { operator, right: Box::new(right) })
            == (EvalOutcome::Fault {
            err: ErrorModel { token: operator, message: "Operand must be a number."@ },
            env: eval_env(spec_eval(env, right)),
        }),
{
}

/// `+` on two strings concatenates them.
pub proof fn lemma_plus_concatenates_strings(a: Seq<char>, b: Seq<char>)
    ensures
        spec_binary_op(ValueModel::Str(a), TokenType::Plus, ValueModel::Str(b))
            == Result::<ValueModel, Seq<char>>::Ok(ValueModel::Str(a + b)),
{
}

/// `+` on a string and a number is a runtime error, not a coercion.
pub proof fn lemma_plus_string_number_errs(a: Seq<char>, n: u64)
    ensures
        spec_binary_op(ValueModel::Str(a), TokenType::Plus, ValueModel::Number(n))
            == Result::<ValueModel, Seq<char>>::Err("Invalid binary operation"@),
        spec_binary_op(ValueModel::Number(n), TokenType::Plus, ValueModel::Str(a))
            == Result::<ValueModel, Seq<char>>::Err("Invalid binary operation"@),
{
}

/// Equality never raises, whatever the operands: `==` and `!=` always yield
/// a boolean, and values of different variants are simply unequal.
pub proof fn lemma_equality_total(l: ValueModel, r: ValueModel)
    ensures
        spec_binary_op(l, TokenType::EqualEqual, r) == Result::<ValueModel, Seq<char>>::Ok(
            ValueModel::Boolean(spec_values_equal(l, r)),
        ),
        spec_binary_op(l, TokenType::BangEqual, r) == Result::<ValueModel, Seq<char>>::Ok(
            ValueModel::Boolean(!spec_values_equal(l, r)),
        ),
        !same_variant(l, r) ==> !spec_values_equal(l, r),
{
}

/// A block's scope shadows without mutating: a name defined in a freshly
/// pushed scope is what lookup sees while the scope lasts, and dropping the
/// scope restores the environment exactly as it was.
pub proof fn lemma_block_shadowing(env: EnvModel, name: Seq<char>, v: ValueModel)
    requires
        env.len() >= 1,
    ensures
        env_lookup(env_define(env.push(Seq::empty()), name, v), name) == Option::Some(v),
        env_define(env.push(Seq::empty()), name, v).drop_last() == env,
{
    let pushed = env.push(Seq::empty());
    let defined = env_define(pushed, name, v);
    assert(defined.last() =~= Seq::<(Seq<char>, ValueModel)>::empty().push((name, v)));
    assert(defined.last()[0] == (name, v));
    assert(defined.drop_last() =~= env);
}

/// Assignment requires a prior declaration: when no scope binds the name
/// once the right-hand side has been evaluated, the assignment raises
/// `Undefined variable '<name>'.` and leaves the environment as the
/// right-hand side left it.
pub proof fn lemma_assign_requires_declaration(
    env: EnvModel,
    name: TokenModel,
    value: ExprModel,
)
    requires
        spec_eval(env, value) is Done,
        env_lookup(eval_env(spec_eval(env, value)), name.lexeme) is None,
    ensures
        spec_eval(env, ExprModel::Assign { name, value: Box::new(value) })
            == (EvalOutcome::Fault {
            err: ErrorModel {
                token: name,
                message: undefined_variable_message(name.lexeme),
            },
            env: eval_env(spec_eval(env, value)),
        }),
{
    let env1 = eval_env(spec_eval(env, value));
    let v = spec_eval(env, value)->v;
    lemma_env_assign_lookup(env1, env1.len() as int, name.lexeme, v);
}

/// Short-circuiting: once the left operand decides (`or` with a truthy
/// left, `and` with a falsy left), the expression's outcome is that operand
/// itself, whatever the right operand is — it is never evaluated, so its
/// side effects never happen. In the opposite cases the outcome is exactly
/// the right operand's evaluation.
pub proof fn lemma_short_circuit(
    env: EnvModel,
    operator: TokenModel,
    left: ExprModel,
    right: ExprModel,
)
    requires
        spec_eval(env, left) is Done,
    ensures
        ({
            let v = spec_eval(env, left)->v;
            let env1 = eval_env(spec_eval(env, left));
            let whole = spec_eval(
                env,
                ExprModel::Logical {
                    left: Box::new(left),
                    operator,
                    right: Box::new(right),
                },
            );
            &&& (operator.token_type == TokenType::Or && spec_truthy(v)) ==> whole
                == (EvalOutcome::Done { v, env: env1 })
            &&& (operator.token_type != TokenType::Or && !spec_truthy(v)) ==> whole
                == (EvalOutcome::Done { v, env: env1 })
            &&& (operator.token_type == TokenType::Or && !spec_truthy(v)) ==> whole == spec_eval(
                env1,
                right,
            )
            &&& (operator.token_type != TokenType::Or && spec_truthy(v)) ==> whole == spec_eval(
                env1,
                right,
            )
        }),
{
}

/// Assignment to a bound name keeps the number of open scopes.
pub proof fn lemma_assign_preserves_scope_count(
    env: EnvModel,
    i: int,
    name: Seq<char>,
    v: ValueModel,
)
    requires
        i <= env.len(),
    ensures
        env_assign_from(env, i, name, v) matches Option::Some(e2) ==> e2.len() == env.len(),
    decreases i,
{
    if i > 0 && scope_assign(env[i - 1], name, v) is None {
        lemma_assign_preserves_scope_count(env, i - 1, name, v);
    }
}

/// Expression evaluation keeps the number of open scopes: reads change
/// nothing, and an assignment overwrites a binding in place.
pub proof fn lemma_eval_preserves_scope_count(env: EnvModel, e: ExprModel)
    ensures
        eval_env(spec_eval(env, e)).len() == env.len(),
    decreases e,
{
    match e {
        ExprModel::Assign { name, value } => {
            lemma_eval_preserves_scope_count(env, *value);
            match spec_eval(env, *value) {
                EvalOutcome::Done { v, env: env1 } => {
                    lemma_assign_preserves_scope_count(env1, env1.len() as int, name.lexeme, v);
                },
                EvalOutcome::Fault { .. } => {},
            }
        },
        ExprModel::Binary { left, operator, right } => {
            lemma_eval_preserves_scope_count(env, *left);
            match spec_eval(env, *left) {
                EvalOutcome::Done { v, env: env1 } => {
                    lemma_eval_preserves_scope_count(env1, *right);
                },
                EvalOutcome::Fault { .. } => {},
            }
        },
        ExprModel::Grouping { expression } => {
            lemma_eval_preserves_scope_count(env, *expression);
        },
        ExprModel::Literal { .. } => {},
        ExprModel::Logical { left, operator, right } => {
            lemma_eval_preserves_scope_count(env, *left);
            match spec_eval(env, *left) {
                EvalOutcome::Done { v, env: env1 } => {
                    lemma_eval_preserves_scope_count(env1, *right);
                },
                EvalOutcome::Fault { .. } => {},
            }
        },
        ExprModel::Unary { operator, right } => {
            lemma_eval_preserves_scope_count(env, *right);
        },
        ExprModel::Variable { .. } => {},
    }
}

/// Statement execution keeps the number of open scopes: a block pushes one
/// scope on entry and drops exactly that scope on the way out, however it
/// exits — normally, on a runtime error, or out of fuel — so nesting never
/// leaks past a block.
pub proof fn lemma_exec_preserves_scope_count(
    env: EnvModel,
    out: Seq<Seq<char>>,
    s: StmtModel,
    fuel: nat,
)
    requires
        env.len() >= 1,
    ensures
        exec_env(spec_exec(env, out, s, fuel)).len() == env.len(),
    decreases fuel, s, 0int,
{
    match s {
        StmtModel::Expression { expression } => {
            lemma_eval_preserves_scope_count(env, *expression);
        },
        StmtModel::Print { expression } => {
            lemma_eval_preserves_scope_count(env, *expression);
        },
        StmtModel::Var { name, initializer } => {
            lemma_eval_preserves_scope_count(env, *initializer);
        },
        StmtModel::Block { statements } => {
            lemma_exec_seq_preserves_scope_count(
                env.push(Seq::empty()),
                out,
                statements,
                0,
                fuel,
            );
        },
        StmtModel::If { condition, then_branch, else_branch } => {
            lemma_eval_preserves_scope_count(env, *condition);
            match spec_eval(env, *condition) {
                EvalOutcome::Done { v, env: env1 } => {
                    if spec_truthy(v) {
                        lemma_exec_preserves_scope_count(env1, out, *then_branch, fuel);
                    } else {
                        match else_branch {
                            Option::Some(e) => {
                                lemma_exec_preserves_scope_count(env1, out, *e, fuel);
                            },
                            Option::None => {},
                        }
                    }
                },
                EvalOutcome::Fault { .. } => {},
            }
        },
        StmtModel::While { condition, body } => {
            lemma_eval_preserves_scope_count(env, *condition);
            match spec_eval(env, *condition) {
                EvalOutcome::Done { v, env: env1 } => {
                    if spec_truthy(v) && fuel > 0 {
                        lemma_exec_preserves_scope_count(env1, out, *body, fuel);
                        match spec_exec(env1, out, *body, fuel) {
                            ExecOutcome::Done { env: env2, out: out2 } => {
                                lemma_exec_preserves_scope_count(
                                    env2,
                                    out2,
                                    s,
                                    (fuel - 1) as nat,
                                );
                            },
                            _ => {},
                        }
                    }
                },
                EvalOutcome::Fault { .. } => {},
            }
        },
    }
}

/// Executing statements in order keeps the number of open scopes.
pub proof fn lemma_exec_seq_preserves_scope_count(
    env: EnvModel,
    out: Seq<Seq<char>>,
    ss: Seq<StmtModel>,
    i: int,
    fuel: nat,
)
    requires
        env.len() >= 1,
    ensures
        exec_env(spec_exec_seq(env, out, ss, i, fuel)).len() == env.len(),
    decreases fuel, ss, ss.len() - i,
{
    if 0 <= i < ss.len() {
        lemma_exec_preserves_scope_count(env, out, ss[i], fuel);
        match spec_exec(env, out, ss[i], fuel) {
            ExecOutcome::Done { env: env1, out: out1 } => {
                lemma_exec_seq_preserves_scope_count(env1, out1, ss, i + 1, fuel);
            },
            _ => {},
        }
    }
}

} // verus!
