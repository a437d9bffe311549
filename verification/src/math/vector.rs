//! Points and vectors: arrays of scalars, with the arithmetic of `fj_math`.

use vstd::prelude::*;

use super::scalar::{
    bits_bounded, bits_same, scalar_bits, scalar_eq, scalar_is_bounded, seq_bounded, seqs_same,
    ONE_BITS, ZERO_BITS,
};

verus! {

/// A vector of `D` components.
#[derive(Clone, Copy, Debug, PartialEq, Eq)]
pub struct Vector<const D: usize> {
    /// The components, first to last.
    pub components: [fj_math::Scalar; D],
}

/// A point of `D` coordinates.
#[derive(Clone, Copy, Debug, PartialEq, Eq)]
pub struct Point<const D: usize> {
    /// The coordinates, first to last.
    pub coords: [fj_math::Scalar; D],
}

impl<const D: usize> View for Vector<D> {
    type V = Seq<u64>;

    /// The bit patterns of the components.
    open spec fn view(&self) -> Seq<u64> {
        Seq::new(D as nat, |i: int| scalar_bits(self.components[i]))
    }
}

impl<const D: usize> View for Point<D> {
    type V = Seq<u64>;

    /// The bit patterns of the coordinates.
    open spec fn view(&self) -> Seq<u64> {
        Seq::new(D as nat, |i: int| scalar_bits(self.coords[i]))
    }
}

/// Bit patterns of the point that `fj_math` computes for a point plus a vector.
pub uninterp spec fn translated_bits(p: Seq<u64>, v: Seq<u64>) -> Seq<u64>;

/// Bit patterns of the vector that `fj_math` computes for a point minus a point.
pub uninterp spec fn difference_bits(a: Seq<u64>, b: Seq<u64>) -> Seq<u64>;

/// Bit patterns of the vector that `fj_math` computes for a vector plus a vector.
pub uninterp spec fn vector_sum_bits(a: Seq<u64>, b: Seq<u64>) -> Seq<u64>;

/// Bit patterns of the vector that `fj_math` computes for a vector times a scalar.
pub uninterp spec fn scaled_bits(v: Seq<u64>, s: u64) -> Seq<u64>;

/// Bit pattern of the dot product that `fj_math` computes for two vectors.
pub uninterp spec fn dot_bits(a: Seq<u64>, b: Seq<u64>) -> u64;

/// Bit pattern of the magnitude that `fj_math` computes for a vector.
pub uninterp spec fn magnitude_bits(v: Seq<u64>) -> u64;

/// Bit patterns of the unit vector that `fj_math` computes for a vector.
pub uninterp spec fn normalized_bits(v: Seq<u64>) -> Seq<u64>;

/// `Point + Vector` of `fj_math`: the sum coordinate by coordinate. A sum is
/// NaN only for two infinities, which a bounded point rules out.
#[verifier::external_body]
pub(crate) fn point_plus<const D: usize>(p: &Point<D>, v: &Vector<D>) -> (r: Point<D>)
    requires
        p.bounded(),
    ensures
        r@ == translated_bits(p@, v@),
{
    let sum = fj_math::Point::from(p.coords) + fj_math::Vector::from(v.components);
    Point { coords: sum.coords.components }
}

/// `Point - Point` of `fj_math`: the difference coordinate by coordinate. A
/// difference is NaN only for two infinities, which a bounded point rules out.
#[verifier::external_body]
pub(crate) fn point_minus<const D: usize>(a: &Point<D>, b: &Point<D>) -> (r: Vector<D>)
    requires
        a.bounded(),
    ensures
        r@ == difference_bits(a@, b@),
{
    let difference = fj_math::Point::from(a.coords) - fj_math::Point::from(b.coords);
    Vector { components: difference.components }
}

/// `Vector + Vector` of `fj_math`: the sum component by component. A sum is
/// NaN only for two infinities, which a bounded vector rules out.
#[verifier::external_body]
pub(crate) fn vector_plus<const D: usize>(a: &Vector<D>, b: &Vector<D>) -> (r: Vector<D>)
    requires
        a.bounded(),
    ensures
        r@ == vector_sum_bits(a@, b@),
{
    let sum = fj_math::Vector::from(a.components) + fj_math::Vector::from(b.components);
    Vector { components: sum.components }
}

/// `Vector * Scalar` of `fj_math`: each component times the scalar. A product
/// is NaN only for zero times infinity, which bounded factors rule out.
#[verifier::external_body]
pub(crate) fn vector_scaled<const D: usize>(v: &Vector<D>, s: fj_math::Scalar) -> (r: Vector<D>)
    requires
        v.bounded(),
        bits_bounded(scalar_bits(s)),
    ensures
        r@ == scaled_bits(v@, scalar_bits(s)),
{
    let scaled = fj_math::Vector::from(v.components) * s;
    Vector { components: scaled.components }
}

/// `Vector::dot` of `fj_math`. With bounded components every product is below
/// two to the power of a thousand, so their sum is finite and not NaN.
#[verifier::external_body]
pub(crate) fn vector_dot<const D: usize>(a: &Vector<D>, b: &Vector<D>) -> (r: fj_math::Scalar)
    requires
        a.bounded(),
        b.bounded(),
        D <= 3,
    ensures
        scalar_bits(r) == dot_bits(a@, b@),
{
    fj_math::Vector::from(a.components).dot(&fj_math::Vector::from(b.components))
}

/// `Vector::magnitude` of `fj_math`: the root of the sum of the squares, which
/// is finite for bounded components.
#[verifier::external_body]
pub(crate) fn vector_magnitude<const D: usize>(v: &Vector<D>) -> (r: fj_math::Scalar)
    requires
        v.bounded(),
        D <= 3,
    ensures
        scalar_bits(r) == magnitude_bits(v@),
{
    fj_math::Vector::from(v.components).magnitude()
}

/// `Vector::normalize` of `fj_math`: each component divided by the magnitude.
/// It panics where a quotient is NaN, which takes a magnitude of zero or an
/// infinite component.
#[verifier::external_body]
pub(crate) fn vector_normalize<const D: usize>(v: &Vector<D>) -> (r: Vector<D>)
    requires
        v.bounded(),
        D <= 3,
        !super::scalar::bits_zero(magnitude_bits(v@)),
    ensures
        r@ == normalized_bits(v@),
{
    Vector { components: fj_math::Vector::from(v.components).normalize().components }
}

/// `Point::origin` of `fj_math`: every coordinate is positive zero.
#[verifier::external_body]
pub(crate) fn point_origin() -> (r: Point<3>)
    ensures
        r@ == seq![ZERO_BITS, ZERO_BITS, ZERO_BITS],
{
    Point { coords: fj_math::Point::<3>::origin().coords.components }
}

/// `Vector::unit_x` of `fj_math`: one, zero, zero.
#[verifier::external_body]
pub(crate) fn vector_unit_x() -> (r: Vector<3>)
    ensures
        r@ == seq![ONE_BITS, ZERO_BITS, ZERO_BITS],
{
    Vector { components: fj_math::Vector::unit_x().components }
}

/// `Vector::unit_y` of `fj_math`: zero, one, zero.
#[verifier::external_body]
pub(crate) fn vector_unit_y() -> (r: Vector<3>)
    ensures
        r@ == seq![ZERO_BITS, ONE_BITS, ZERO_BITS],
{
    Vector { components: fj_math::Vector::unit_y().components }
}

impl<const D: usize> Vector<D> {
    /// A vector of the given components.
    pub fn new(components: [fj_math::Scalar; D]) -> (r: Self)
        ensures
            r.components == components,
    {
        Vector { components }
    }

    /// Whether every component is bounded.
    pub open spec fn bounded(&self) -> bool {
        seq_bounded(self@)
    }

    /// Whether the two vectors hold the same numbers.
    pub open spec fn same(&self, other: &Self) -> bool {
        seqs_same(self@, other@)
    }

    /// Whether every component is bounded.
    pub fn is_bounded(&self) -> (r: bool)
        ensures
            r == self.bounded(),
    {
        let mut i: usize = 0;
        while i < D
            invariant
                0 <= i <= D,
                forall|j: int| 0 <= j < i ==> bits_bounded(#[trigger] self@[j]),
            decreases D - i,
        {
            if !scalar_is_bounded(&self.components[i]) {
                assert(!bits_bounded(self@[i as int]));
                return false;
            }
            i += 1;
        }
        true
    }

    /// Whether the two vectors hold the same numbers, component by component.
    pub fn same_as(&self, other: &Self) -> (r: bool)
        ensures
            r == self.same(other),
    {
        let mut i: usize = 0;
        while i < D
            invariant
                0 <= i <= D,
                forall|j: int| 0 <= j < i ==> bits_same(#[trigger] self@[j], other@[j]),
            decreases D - i,
        {
            if !scalar_eq(&self.components[i], &other.components[i]) {
                assert(!bits_same(self@[i as int], other@[i as int]));
                return false;
            }
            i += 1;
        }
        true
    }
}

impl<const D: usize> Point<D> {
    /// A point of the given coordinates.
    pub fn new(coords: [fj_math::Scalar; D]) -> (r: Self)
        ensures
            r.coords == coords,
    {
        Point { coords }
    }

    /// Whether every coordinate is bounded.
    pub open spec fn bounded(&self) -> bool {
        seq_bounded(self@)
    }

    /// Whether the two points hold the same numbers.
    pub open spec fn same(&self, other: &Self) -> bool {
        seqs_same(self@, other@)
    }

    /// Whether every coordinate is bounded.
    pub fn is_bounded(&self) -> (r: bool)
        ensures
            r == self.bounded(),
    {
        let mut i: usize = 0;
        while i < D
            invariant
                0 <= i <= D,
                forall|j: int| 0 <= j < i ==> bits_bounded(#[trigger] self@[j]),
            decreases D - i,
        {
            if !scalar_is_bounded(&self.coords[i]) {
                assert(!bits_bounded(self@[i as int]));
                return false;
            }
            i += 1;
        }
        true
    }

    /// Whether the two points hold the same numbers, coordinate by coordinate.
    pub fn same_as(&self, other: &Self) -> (r: bool)
        ensures
            r == self.same(other),
    {
        let mut i: usize = 0;
        while i < D
            invariant
                0 <= i <= D,
                forall|j: int| 0 <= j < i ==> bits_same(#[trigger] self@[j], other@[j]),
            decreases D - i,
        {
            if !scalar_eq(&self.coords[i], &other.coords[i]) {
                assert(!bits_same(self@[i as int], other@[i as int]));
                return false;
            }
            i += 1;
        }
        true
    }
}

impl Point<2> {
    /// The point at the coordinates `u` and `v` of a surface.
    pub fn from_uv(u: fj_math::Scalar, v: fj_math::Scalar) -> (r: Self)
        ensures
            r@ == seq![scalar_bits(u), scalar_bits(v)],
    {
        let r = Point { coords: [u, v] };
        assert(r@ =~= seq![scalar_bits(u), scalar_bits(v)]);
        r
    }

    /// The first coordinate alone, as a point on a curve.
    pub fn to_t(&self) -> (r: Point<1>)
        ensures
            r@ == seq![self@[0]],
    {
        let r = Point { coords: [self.coords[0]] };
        assert(r@ =~= seq![self@[0]]);
        r
    }
}

impl Vector<2> {
    /// The first component alone, as a vector along a curve.
    pub fn to_t(&self) -> (r: Vector<1>)
        ensures
            r@ == seq![self@[0]],
    {
        let r = Vector { components: [self.components[0]] };
        assert(r@ =~= seq![self@[0]]);
        r
    }
}

} // verus!
