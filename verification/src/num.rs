//! The runtime's numbers are IEEE double-precision values, carried everywhere
//! as their 64-bit pattern (`u64`). Arithmetic, comparison, parsing and
//! formatting of doubles are done by the host's floating-point operations
//! behind the trusted wrappers below; each result is named by an
//! uninterpreted spec function of the operand bits, which is sound because
//! every one of these operations is a pure function of its operands' bits.

use std::primitive::f64 as Double;
use vstd::prelude::*;

verus! {

/// The bit pattern of the IEEE double 1e8: the scale by which a number is
/// rounded to 8 decimal places before it is displayed.
pub const DISPLAY_SCALE_BITS: u64 = 0x4197D78400000000;

/// The bit pattern of the IEEE double sum of the doubles with bits `a`, `b`.
pub uninterp spec fn add_bits(a: u64, b: u64) -> u64;

/// The bit pattern of the IEEE double difference of the doubles `a`, `b`.
pub uninterp spec fn sub_bits(a: u64, b: u64) -> u64;

/// The bit pattern of the IEEE double product of the doubles `a`, `b`.
pub uninterp spec fn mul_bits(a: u64, b: u64) -> u64;

/// The bit pattern of the IEEE double quotient of the doubles `a`, `b`.
pub uninterp spec fn div_bits(a: u64, b: u64) -> u64;

/// The bit pattern of the IEEE negation of the double with bits `a`.
pub uninterp spec fn neg_bits(a: u64) -> u64;

/// Whether the double with bits `a` is less than the double with bits `b`.
pub uninterp spec fn lt_bits(a: u64, b: u64) -> bool;

/// Whether the double `a` is less than or equal to the double `b`.
pub uninterp spec fn le_bits(a: u64, b: u64) -> bool;

/// Whether the double `a` is greater than the double `b`.
pub uninterp spec fn gt_bits(a: u64, b: u64) -> bool;

/// Whether the double `a` is greater than or equal to the double `b`.
pub uninterp spec fn ge_bits(a: u64, b: u64) -> bool;

/// IEEE equality of the doubles with bits `a` and `b` (not bit equality:
/// the two zeroes compare equal, a NaN compares equal to nothing).
pub uninterp spec fn eq_bits(a: u64, b: u64) -> bool;

/// The bit pattern of the double `a` rounded to the nearest integer,
/// ties away from zero.
pub uninterp spec fn round_bits(a: u64) -> u64;

/// The decimal rendering of the double with bits `a`, as the host's
/// default formatting writes it.
pub uninterp spec fn fmt_bits(a: u64) -> Seq<char>;

/// The bit pattern of the double a numeric lexeme denotes.
pub uninterp spec fn number_of_lexeme(s: Seq<char>) -> u64;

/// Relies on `f64::from_bits` and `f64::to_bits` round-tripping a bit
/// pattern, and on `+` of `f64` being a pure function of the operand bits.
#[verifier::external_body]
pub(crate) fn num_add(a: u64, b: u64) -> (r: u64)
    ensures
        r == add_bits(a, b),
{
    (Double::from_bits(a) + Double::from_bits(b)).to_bits()
}

/// Relies on `-` (subtraction) of `f64` being a pure function of the bits.
#[verifier::external_body]
pub(crate) fn num_sub(a: u64, b: u64) -> (r: u64)
    ensures
        r == sub_bits(a, b),
{
    (Double::from_bits(a) - Double::from_bits(b)).to_bits()
}

/// Relies on `*` of `f64` being a pure function of the operand bits.
#[verifier::external_body]
pub(crate) fn num_mul(a: u64, b: u64) -> (r: u64)
    ensures
        r == mul_bits(a, b),
{
    (Double::from_bits(a) * Double::from_bits(b)).to_bits()
}

/// Relies on `/` of `f64` being a pure function of the operand bits
/// (division by zero yields an infinity or NaN, never a fault).
#[verifier::external_body]
pub(crate) fn num_div(a: u64, b: u64) -> (r: u64)
    ensures
        r == div_bits(a, b),
{
    (Double::from_bits(a) / Double::from_bits(b)).to_bits()
}

/// Relies on unary `-` of `f64` being a pure function of the bits.
#[verifier::external_body]
pub(crate) fn num_neg(a: u64) -> (r: u64)
    ensures
        r == neg_bits(a),
{
    (-Double::from_bits(a)).to_bits()
}

/// Relies on `<` of `f64` being a pure function of the operand bits.
#[verifier::external_body]
pub(crate) fn num_lt(a: u64, b: u64) -> (r: bool)
    ensures
        r == lt_bits(a, b),
{
    Double::from_bits(a) < Double::from_bits(b)
}

/// Relies on `<=` of `f64` being a pure function of the operand bits.
#[verifier::external_body]
pub(crate) fn num_le(a: u64, b: u64) -> (r: bool)
    ensures
        r == le_bits(a, b),
{
    Double::from_bits(a) <= Double::from_bits(b)
}

/// Relies on `>` of `f64` being a pure function of the operand bits.
#[verifier::external_body]
pub(crate) fn num_gt(a: u64, b: u64) -> (r: bool)
    ensures
        r == gt_bits(a, b),
{
    Double::from_bits(a) > Double::from_bits(b)
}

/// Relies on `>=` of `f64` being a pure function of the operand bits.
#[verifier::external_body]
pub(crate) fn num_ge(a: u64, b: u64) -> (r: bool)
    ensures
        r == ge_bits(a, b),
{
    Double::from_bits(a) >= Double::from_bits(b)
}

/// Relies on `==` of `f64` (IEEE equality) being a pure function of the
/// operand bits.
#[verifier::external_body]
pub(crate) fn num_eq(a: u64, b: u64) -> (r: bool)
    ensures
        r == eq_bits(a, b),
{
    Double::from_bits(a) == Double::from_bits(b)
}

/// Relies on `f64::round`: rounds to the nearest integer, ties away from
/// zero, a pure function of the bits.
#[verifier::external_body]
pub(crate) fn num_round(a: u64) -> (r: u64)
    ensures
        r == round_bits(a),
{
    Double::from_bits(a).round().to_bits()
}

/// Relies on the `Display` formatting of `f64`, a pure function of the bits.
#[verifier::external_body]
pub(crate) fn num_fmt(a: u64) -> (r: String)
    ensures
        r@ == fmt_bits(a),
{
    format!("{}", Double::from_bits(a))
}

/// Relies on `str::parse::<f64>`: on a lexeme of one or more ASCII digits,
/// optionally followed by `.` and one or more ASCII digits, it always
/// succeeds, and its result is a pure function of the characters.
#[verifier::external_body]
pub(crate) fn num_parse(s: &str) -> (r: u64)
    requires
        is_number_lexeme(s@),
    ensures
        r == number_of_lexeme(s@),
{
    s.parse::<Double>().unwrap().to_bits()
}

/// Whether `c` is an ASCII decimal digit.
pub open spec fn spec_is_digit(c: char) -> bool {
    48 <= c as u32 <= 57
}

/// The shape of a numeric lexeme whose integer part is its first `k`
/// characters: digits, then optionally `.` and at least one more digit.
pub open spec fn number_shape(s: Seq<char>, k: int) -> bool {
    &&& 1 <= k <= s.len()
    &&& (forall|i: int| 0 <= i < k ==> spec_is_digit(#[trigger] s[i]))
    &&& (k < s.len() ==> {
        &&& s[k] == '.'
        &&& k + 1 < s.len()
        &&& (forall|i: int| k < i < s.len() ==> spec_is_digit(#[trigger] s[i]))
    })
}

/// The shape of a numeric lexeme: digits, optionally `.` and digits.
pub open spec fn is_number_lexeme(s: Seq<char>) -> bool {
    exists|k: int| number_shape(s, k)
}

} // verus!
