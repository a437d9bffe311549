//! Affine transforms of `fj_math`, seen through the entries of their matrix.

use vstd::prelude::*;

use super::scalar::{bits_bounded, seq_bounded, BOUND_EXPONENT, ONE_BITS, ZERO_BITS};
use super::vector::{Point, Vector};

verus! {

#[verifier::external_type_specification]
#[verifier::external_body]
pub struct ExTransform(fj_math::Transform);

/// The bit patterns of the sixteen entries of a transform's matrix, column
/// after column.
pub uninterp spec fn transform_entries(t: fj_math::Transform) -> Seq<u64>;

/// Bit patterns of the point that `fj_math` computes for a transform, given by
/// its entries, applied to a point.
pub uninterp spec fn transformed_point_bits(entries: Seq<u64>, p: Seq<u64>) -> Seq<u64>;

/// Bit patterns of the vector that `fj_math` computes for a transform, given by
/// its entries, applied to a vector.
pub uninterp spec fn transformed_vector_bits(entries: Seq<u64>, v: Seq<u64>) -> Seq<u64>;

/// The entries of the translation by an offset: the identity matrix with the
/// offset in the upper part of its last column.
pub open spec fn translation_entries(offset: Seq<u64>) -> Seq<u64> {
    seq![
        ONE_BITS, ZERO_BITS, ZERO_BITS, ZERO_BITS,
        ZERO_BITS, ONE_BITS, ZERO_BITS, ZERO_BITS,
        ZERO_BITS, ZERO_BITS, ONE_BITS, ZERO_BITS,
        offset[0], offset[1], offset[2], ONE_BITS,
    ]
}

/// Whether every entry of the transform is bounded.
pub open spec fn transform_bounded(t: fj_math::Transform) -> bool {
    seq_bounded(transform_entries(t))
}

/// `Transform::data` of `fj_math`: the entries of the matrix, column after
/// column, each handed out as its bit pattern.
#[verifier::external_body]
pub(crate) fn transform_data(t: &fj_math::Transform) -> (r: Vec<u64>)
    ensures
        r@ == transform_entries(*t),
{
    t.data().iter().map(|entry| entry.to_bits()).collect()
}

/// `Transform::translation` of `fj_math`: an identity matrix into whose last
/// column the offset is copied.
#[verifier::external_body]
pub(crate) fn translation(offset: &Vector<3>) -> (r: fj_math::Transform)
    ensures
        transform_entries(r) == translation_entries(offset@),
{
    fj_math::Transform::translation(fj_math::Vector::from(offset.components))
}

/// `Transform::transform_point` of `fj_math`: the upper left three by three
/// block times the point, plus the last column. With bounded entries and
/// coordinates every product and sum is finite, so none is NaN.
#[verifier::external_body]
pub(crate) fn transform_point(t: &fj_math::Transform, p: &Point<3>) -> (r: Point<3>)
    requires
        transform_bounded(*t),
        p.bounded(),
    ensures
        r@ == transformed_point_bits(transform_entries(*t), p@),
{
    Point { coords: t.transform_point(&fj_math::Point::from(p.coords)).coords.components }
}

/// `Transform::transform_vector` of `fj_math`: the upper left three by three
/// block times the vector. With bounded entries and components every product
/// and sum is finite, so none is NaN.
#[verifier::external_body]
pub(crate) fn transform_vector(t: &fj_math::Transform, v: &Vector<3>) -> (r: Vector<3>)
    requires
        transform_bounded(*t),
        v.bounded(),
    ensures
        r@ == transformed_vector_bits(transform_entries(*t), v@),
{
    Vector { components: t.transform_vector(&fj_math::Vector::from(v.components)).components }
}

/// Whether every entry of the transform is bounded.
pub fn transform_is_bounded(t: &fj_math::Transform) -> (r: bool)
    ensures
        r == transform_bounded(*t),
{
    let entries: Vec<u64> = transform_data(t);
    let mut i: usize = 0;
    while i < entries.len()
        invariant
            0 <= i <= entries.len(),
            entries@ == transform_entries(*t),
            forall|j: int| 0 <= j < i ==> bits_bounded(#[trigger] entries@[j]),
        decreases entries.len() - i,
    {
        let bits: u64 = entries[i];
        if !(((bits >> 52) & 0x7FF) < BOUND_EXPONENT) {
            assert(!bits_bounded(entries@[i as int]));
            return false;
        }
        i += 1;
    }
    true
}

/// The translation by a bounded offset is a bounded transform.
pub proof fn lemma_translation_bounded(offset: Seq<u64>)
    requires
        offset.len() == 3,
        seq_bounded(offset),
    ensures
        seq_bounded(translation_entries(offset)),
{
    super::scalar::lemma_constants_bounded();
    let entries = translation_entries(offset);
    assert forall|i: int| 0 <= i < entries.len() implies bits_bounded(#[trigger] entries[i]) by {
        if i == 12 {
            assert(entries[i] == offset[0]);
        } else if i == 13 {
            assert(entries[i] == offset[1]);
        } else if i == 14 {
            assert(entries[i] == offset[2]);
        } else {
            assert(entries[i] == ZERO_BITS || entries[i] == ONE_BITS);
        }
    }
}

} // verus!
