//! IEEE-754 binary32 scalars, carried as `u32` bit patterns.
//!
//! The matrix code never looks inside a scalar: each arithmetic operation is
//! performed by `rustc_apfloat` on the bit pattern, and its result is named by
//! an uninterpreted spec function. What this module does state of those names
//! is a handful of exact identities of IEEE-754 binary32 arithmetic (round to
//! nearest, ties to even), each noted at the wrapper that assumes it.

use vstd::prelude::*;
use rustc_apfloat::Float;

verus! {

/// Bit pattern of `+0.0`.
pub const F32_ZERO_BITS: u32 = 0x0000_0000;

/// Bit pattern of `-0.0`.
pub const F32_NEG_ZERO_BITS: u32 = 0x8000_0000;

/// Bit pattern of `1.0`.
pub const F32_ONE_BITS: u32 = 0x3f80_0000;

/// Bit pattern of `-1.0`.
pub const F32_NEG_ONE_BITS: u32 = 0xbf80_0000;

/// A binary32 value is NaN when its exponent field is all ones and its
/// mantissa field is not zero.
pub open spec fn f32_is_nan_bits(a: u32) -> bool {
    a & 0x7f80_0000 == 0x7f80_0000 && a & 0x007f_ffff != 0
}

/// A binary32 value is finite (neither an infinity nor NaN) when its exponent
/// field is not all ones.
pub open spec fn f32_is_finite_bits(a: u32) -> bool {
    a & 0x7f80_0000 != 0x7f80_0000
}

/// The two binary32 values that compare equal to zero.
pub open spec fn f32_is_zero_bits(a: u32) -> bool {
    a == F32_ZERO_BITS || a == F32_NEG_ZERO_BITS
}

/// The bit pattern with the sign flipped: IEEE-754 negation.
pub open spec fn f32_neg_bits(a: u32) -> u32 {
    a ^ 0x8000_0000
}

/// Result of binary32 addition, round to nearest, ties to even.
pub uninterp spec fn f32_add_bits(a: u32, b: u32) -> u32;

/// Result of binary32 subtraction, round to nearest, ties to even.
pub uninterp spec fn f32_sub_bits(a: u32, b: u32) -> u32;

/// Result of binary32 multiplication, round to nearest, ties to even.
pub uninterp spec fn f32_mul_bits(a: u32, b: u32) -> u32;

/// Result of binary32 division, round to nearest, ties to even.
pub uninterp spec fn f32_div_bits(a: u32, b: u32) -> u32;

/// Relies on the `Add` impl of `rustc_apfloat::ieee::Single`: IEEE-754
/// binary32 addition, round to nearest even. The two extra clauses are
/// exact identities of that operation: addition is commutative whenever the
/// result is not NaN, and a finite value plus its negation is exactly `+0.0`.
#[verifier::external_body]
pub(crate) fn f32_add(a: u32, b: u32) -> (r: u32)
    ensures
        r == f32_add_bits(a, b),
        !f32_is_nan_bits(r) ==> r == f32_add_bits(b, a),
        f32_is_finite_bits(a) && b == f32_neg_bits(a) ==> r == F32_ZERO_BITS,
{
    let x = rustc_apfloat::ieee::Single::from_bits(a as u128);
    let y = rustc_apfloat::ieee::Single::from_bits(b as u128);
    (x + y).value.to_bits() as u32
}

/// Relies on the `Sub` impl of `rustc_apfloat::ieee::Single`: IEEE-754
/// binary32 subtraction, round to nearest even. The extra clause is an exact
/// identity of that operation: subtracting `+0.0` from a value that is not
/// NaN returns it unchanged.
#[verifier::external_body]
pub(crate) fn f32_sub(a: u32, b: u32) -> (r: u32)
    ensures
        r == f32_sub_bits(a, b),
        b == F32_ZERO_BITS && !f32_is_nan_bits(a) ==> r == a,
{
    let x = rustc_apfloat::ieee::Single::from_bits(a as u128);
    let y = rustc_apfloat::ieee::Single::from_bits(b as u128);
    (x - y).value.to_bits() as u32
}

/// Relies on the `Mul` impl of `rustc_apfloat::ieee::Single`: IEEE-754
/// binary32 multiplication, round to nearest even. The extra clauses are
/// exact identities of that operation: multiplication by `1.0` returns the
/// other operand unchanged when it is not NaN, multiplication by `-1.0`
/// flips its sign, and `0.0 * 0.0` is `0.0`.
#[verifier::external_body]
pub(crate) fn f32_mul(a: u32, b: u32) -> (r: u32)
    ensures
        r == f32_mul_bits(a, b),
        b == F32_ONE_BITS && !f32_is_nan_bits(a) ==> r == a,
        a == F32_ONE_BITS && !f32_is_nan_bits(b) ==> r == b,
        b == F32_NEG_ONE_BITS && !f32_is_nan_bits(a) ==> r == f32_neg_bits(a),
        a == F32_ZERO_BITS && b == F32_ZERO_BITS ==> r == F32_ZERO_BITS,
{
    let x = rustc_apfloat::ieee::Single::from_bits(a as u128);
    let y = rustc_apfloat::ieee::Single::from_bits(b as u128);
    (x * y).value.to_bits() as u32
}

/// Relies on the `Div` impl of `rustc_apfloat::ieee::Single`: IEEE-754
/// binary32 division, round to nearest even. The extra clause is an exact
/// identity of that operation: dividing a value that is not NaN by `1.0`
/// returns it unchanged.
#[verifier::external_body]
pub(crate) fn f32_div(a: u32, b: u32) -> (r: u32)
    ensures
        r == f32_div_bits(a, b),
        b == F32_ONE_BITS && !f32_is_nan_bits(a) ==> r == a,
{
    let x = rustc_apfloat::ieee::Single::from_bits(a as u128);
    let y = rustc_apfloat::ieee::Single::from_bits(b as u128);
    (x / y).value.to_bits() as u32
}

/// The bit patterns of `0.0` and `1.0` are finite, hence not NaN.
pub proof fn lemma_zero_one_finite()
    ensures
        f32_is_finite_bits(F32_ZERO_BITS),
        f32_is_finite_bits(F32_ONE_BITS),
        !f32_is_nan_bits(F32_ZERO_BITS),
        !f32_is_nan_bits(F32_ONE_BITS),
{
    assert(0x0000_0000u32 & 0x7f80_0000 != 0x7f80_0000) by (bit_vector);
    assert(0x3f80_0000u32 & 0x7f80_0000 != 0x7f80_0000) by (bit_vector);
}

} // verus!
