//! Scalars of `fj_math`, seen through their IEEE 754 bit patterns.
//!
//! `fj_math::Scalar` wraps a double that is never NaN. Here such a scalar is
//! known by the 64 bits of that double: sign, eleven bits of exponent, fifty-two
//! bits of mantissa.

use vstd::prelude::*;

verus! {

#[verifier::external_type_specification]
#[verifier::external_body]
pub struct ExScalar(fj_math::Scalar);

/// The bit pattern of the double that a scalar wraps.
pub uninterp spec fn scalar_bits(s: fj_math::Scalar) -> u64;

/// The bit pattern of the quotient that `fj_math` computes for two scalars,
/// given by their bit patterns.
pub uninterp spec fn quotient_bits(a: u64, b: u64) -> u64;

/// Bit pattern of positive zero.
pub const ZERO_BITS: u64 = 0;

/// Bit pattern of one.
pub const ONE_BITS: u64 = 0x3FF0_0000_0000_0000;

/// A biased exponent below this one belongs to a magnitude below two to the
/// power of five hundred.
pub const BOUND_EXPONENT: u64 = 1523;

/// The biased exponent in a bit pattern.
pub open spec fn bits_exponent(bits: u64) -> u64 {
    (bits >> 52) & 0x7FF
}

/// Whether the magnitude is below two to the power of five hundred.
///
/// Sums and products of a few such numbers stay finite, so arithmetic on them
/// never yields NaN.
pub open spec fn bits_bounded(bits: u64) -> bool {
    bits_exponent(bits) < BOUND_EXPONENT
}

/// Whether the bit pattern is that of a zero, of either sign.
pub open spec fn bits_zero(bits: u64) -> bool {
    bits & 0x7FFF_FFFF_FFFF_FFFF == 0
}

/// Whether two bit patterns, neither of them NaN, stand for the same number.
pub open spec fn bits_same(a: u64, b: u64) -> bool {
    a == b || (bits_zero(a) && bits_zero(b))
}

/// Whether every bit pattern of a sequence is bounded.
pub open spec fn seq_bounded(s: Seq<u64>) -> bool {
    forall|i: int| 0 <= i < s.len() ==> bits_bounded(#[trigger] s[i])
}

/// Whether two sequences of bit patterns stand for the same numbers.
pub open spec fn seqs_same(a: Seq<u64>, b: Seq<u64>) -> bool {
    &&& a.len() == b.len()
    &&& forall|i: int| 0 <= i < a.len() ==> bits_same(#[trigger] a[i], b[i])
}

/// Reads the bit pattern out of a scalar, with `fj_math::Scalar::into_f64`.
#[verifier::external_body]
pub(crate) fn scalar_to_bits(s: &fj_math::Scalar) -> (r: u64)
    ensures
        r == scalar_bits(*s),
{
    s.into_f64().to_bits()
}

/// `==` of `fj_math::Scalar`, which compares the wrapped doubles. Neither is
/// NaN, so they are equal exactly when the bit patterns agree or both are
/// zeros.
#[verifier::external_body]
pub(crate) fn scalar_eq(a: &fj_math::Scalar, b: &fj_math::Scalar) -> (r: bool)
    ensures
        r == bits_same(scalar_bits(*a), scalar_bits(*b)),
{
    a == b
}

/// `/` of `fj_math::Scalar`, which panics where the quotient is NaN: zero by
/// zero, or infinity by infinity. A divisor that is finite and not zero rules
/// both out.
#[verifier::external_body]
pub(crate) fn scalar_div(a: fj_math::Scalar, b: fj_math::Scalar) -> (r: fj_math::Scalar)
    requires
        bits_bounded(scalar_bits(b)),
        !bits_zero(scalar_bits(b)),
    ensures
        scalar_bits(r) == quotient_bits(scalar_bits(a), scalar_bits(b)),
{
    a / b
}

/// Whether the scalar's magnitude is below two to the power of five hundred.
pub fn scalar_is_bounded(s: &fj_math::Scalar) -> (r: bool)
    ensures
        r == bits_bounded(scalar_bits(*s)),
{
    let bits: u64 = scalar_to_bits(s);
    ((bits >> 52) & 0x7FF) < BOUND_EXPONENT
}

/// Whether the scalar is zero, of either sign.
pub fn scalar_is_zero(s: &fj_math::Scalar) -> (r: bool)
    ensures
        r == bits_zero(scalar_bits(*s)),
{
    let bits: u64 = scalar_to_bits(s);
    bits & 0x7FFF_FFFF_FFFF_FFFF == 0
}

/// Zero and one are bounded.
pub proof fn lemma_constants_bounded()
    ensures
        bits_bounded(ZERO_BITS),
        bits_bounded(ONE_BITS),
        bits_zero(ZERO_BITS),
        !bits_zero(ONE_BITS),
{
    assert(((0u64 >> 52) & 0x7FF) < 1523) by (bit_vector);
    assert(((0x3FF0_0000_0000_0000u64 >> 52) & 0x7FF) < 1523) by (bit_vector);
    assert(0u64 & 0x7FFF_FFFF_FFFF_FFFF == 0) by (bit_vector);
    assert(0x3FF0_0000_0000_0000u64 & 0x7FFF_FFFF_FFFF_FFFF != 0) by (bit_vector);
}

} // verus!
