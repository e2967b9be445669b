use crate::num::{
    div_bits, eq_bits, fmt_bits, mul_bits, num_div, num_eq, num_fmt, num_mul, num_round,
    round_bits, DISPLAY_SCALE_BITS,
};
use vstd::prelude::*;

verus! {

/// A runtime value: a number (as the bits of an IEEE double), a string, a
/// boolean, or nil.
pub enum Value {
    Number(u64),
    Str(String),
    Boolean(bool),
    Nil,
}

/// The mathematical shape of a `Value`.
pub enum ValueModel {
    Number(u64),
    Str(Seq<char>),
    Boolean(bool),
    Nil,
}

impl View for Value {
    type V = ValueModel;

    open spec fn view(&self) -> ValueModel {
        match self {
            Value::Number(bits) => ValueModel::Number(*bits),
            Value::Str(s) => ValueModel::Str(s@),
            Value::Boolean(b) => ValueModel::Boolean(*b),
            Value::Nil => ValueModel::Nil,
        }
    }
}

/// Truthiness: nil and false are falsy; every other value, zero and the
/// empty string included, is truthy.
pub open spec fn spec_truthy(v: ValueModel) -> bool {
    match v {
        ValueModel::Nil => false,
        ValueModel::Boolean(b) => b,
        _ => true,
    }
}

/// Structural equality of two values: values of different variants are never
/// equal; numbers compare by IEEE equality, strings by their characters.
pub open spec fn spec_values_equal(a: ValueModel, b: ValueModel) -> bool {
    match (a, b) {
        (ValueModel::Number(x), ValueModel::Number(y)) => eq_bits(x, y),
        (ValueModel::Str(x), ValueModel::Str(y)) => x == y,
        (ValueModel::Boolean(x), ValueModel::Boolean(y)) => x == y,
        (ValueModel::Nil, ValueModel::Nil) => true,
        _ => false,
    }
}

/// The display form of a number: the double rounded to 8 decimal places
/// (scale by 1e8, round to the nearest integer, scale back), then written
/// by the host's default formatting.
pub open spec fn spec_display_number(bits: u64) -> Seq<char> {
    fmt_bits(div_bits(round_bits(mul_bits(bits, DISPLAY_SCALE_BITS)), DISPLAY_SCALE_BITS))
}

/// The display form of a value, as the `print` statement writes it.
pub open spec fn spec_display(v: ValueModel) -> Seq<char> {
    match v {
        ValueModel::Number(bits) => spec_display_number(bits),
        ValueModel::Str(s) => s,
        ValueModel::Boolean(b) => if b {
            "true"@
        } else {
            "false"@
        },
        ValueModel::Nil => "nil"@,
    }
}

impl Value {
    /// A deep copy; the derived `Clone` would say nothing about the copy.
    pub fn duplicate(&self) -> (r: Value)
        ensures
            r@ == self@,
    {
        match self {
            Value::Number(bits) => Value::Number(*bits),
            Value::Str(s) => Value::Str(s.clone()),
            Value::Boolean(b) => Value::Boolean(*b),
            Value::Nil => Value::Nil,
        }
    }

    /// Whether the value counts as true in a condition.
    pub fn is_truthy(&self) -> (r: bool)
        ensures
            r == spec_truthy(self@),
    {
        match self {
            Value::Nil => false,
            Value::Boolean(b) => *b,
            _ => true,
        }
    }

    /// Structural equality with another value, never an error.
    pub fn equals(&self, other: &Value) -> (r: bool)
        ensures
            r == spec_values_equal(self@, other@),
    {
        match (self, other) {
            (Value::Number(x), Value::Number(y)) => num_eq(*x, *y),
            (Value::Str(x), Value::Str(y)) => x.eq(y),
            (Value::Boolean(x), Value::Boolean(y)) => *x == *y,
            (Value::Nil, Value::Nil) => true,
            _ => false,
        }
    }

    /// The line the `print` statement writes for this value: numbers are
    /// rounded to 8 decimal places to suppress trailing floating-point
    /// noise, booleans print as `true`/`false`, nil as `nil`, strings
    /// as their text.
    pub fn to_display_string(&self) -> (r: String)
        ensures
            r@ == spec_display(self@),
    {
        match self {
            Value::Number(bits) => {
                let scaled = num_mul(*bits, DISPLAY_SCALE_BITS);
                let rounded = num_round(scaled);
                num_fmt(num_div(rounded, DISPLAY_SCALE_BITS))
            },
            Value::Str(s) => s.clone(),
            Value::Boolean(b) => if *b {
                "true".to_owned()
            } else {
                "false".to_owned()
            },
            Value::Nil => "nil".to_owned(),
        }
    }
}

} // verus!
