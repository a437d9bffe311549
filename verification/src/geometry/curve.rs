//! Curves: one-dimensional objects in model space.

use vstd::prelude::*;

use crate::math::scalar::{
    bits_bounded, bits_zero, quotient_bits, scalar_bits, scalar_div, scalar_is_bounded,
    scalar_is_zero, seq_bounded,
};
use crate::math::transform::{
    transform_bounded, transform_entries, transform_point, transform_vector,
    transformed_point_bits, transformed_vector_bits,
};
use crate::math::vector::{
    difference_bits, dot_bits, magnitude_bits, normalized_bits, point_minus, point_plus,
    scaled_bits, translated_bits, vector_dot, vector_magnitude, vector_normalize, vector_scaled,
};
use crate::math::{Point, Vector};

verus! {

/// A line through an origin, along a direction.
///
/// The point at parameter `t` is the origin plus `t` times the direction.
#[derive(Clone, Copy, Debug, PartialEq, Eq)]
pub struct Line {
    /// The point at parameter zero.
    pub origin: Point<3>,
    /// The step from parameter zero to parameter one.
    pub direction: Vector<3>,
}

/// A curve. Lines are the only kind so far.
#[derive(Clone, Copy, Debug, PartialEq, Eq)]
pub enum Curve {
    /// A line.
    Line(Line),
}

/// The parameter at which a point lies along a direction from an origin: the
/// step from the origin to the point, projected onto the direction of unit
/// length, divided by the length of the direction.
pub open spec fn projection_bits(point: Seq<u64>, origin: Seq<u64>, direction: Seq<u64>) -> u64 {
    quotient_bits(
        dot_bits(difference_bits(point, origin), normalized_bits(direction)),
        magnitude_bits(direction),
    )
}

/// Whether the parameter of a point along a direction can be computed: point
/// and direction are bounded, the direction has a length that is bounded and
/// not zero, and the step from the origin to the point and the direction of
/// unit length come out bounded.
pub open spec fn projectable(point: Seq<u64>, origin: Seq<u64>, direction: Seq<u64>) -> bool {
    &&& seq_bounded(point)
    &&& seq_bounded(direction)
    &&& bits_bounded(magnitude_bits(direction))
    &&& !bits_zero(magnitude_bits(direction))
    &&& seq_bounded(difference_bits(point, origin))
    &&& seq_bounded(normalized_bits(direction))
}

/// The parameter at which a point lies along a direction from an origin.
pub fn project(point: &Point<3>, origin: &Point<3>, direction: &Vector<3>) -> (r: fj_math::Scalar)
    requires
        projectable(point@, origin@, direction@),
    ensures
        scalar_bits(r) == projection_bits(point@, origin@, direction@),
{
    let step = point_minus(point, origin);
    let along = vector_dot(&step, &vector_normalize(direction));
    scalar_div(along, vector_magnitude(direction))
}

/// Whether the parameter of a point along a direction can be computed.
pub fn can_project(point: &Point<3>, origin: &Point<3>, direction: &Vector<3>) -> (r: bool)
    ensures
        r == projectable(point@, origin@, direction@),
{
    if !point.is_bounded() || !direction.is_bounded() {
        return false;
    }
    let length = vector_magnitude(direction);
    if !scalar_is_bounded(&length) || scalar_is_zero(&length) {
        return false;
    }
    point_minus(point, origin).is_bounded() && vector_normalize(direction).is_bounded()
}

impl Line {
    /// Whether origin and direction are bounded.
    pub open spec fn bounded(&self) -> bool {
        self.origin.bounded() && self.direction.bounded()
    }

    /// Whether the two lines hold the same numbers.
    pub open spec fn same(&self, other: &Self) -> bool {
        self.origin.same(&other.origin) && self.direction.same(&other.direction)
    }

    /// Whether this line is what a transform with the given entries makes of
    /// `source`.
    pub open spec fn is_image(&self, source: &Self, entries: Seq<u64>) -> bool {
        &&& self.origin@ == transformed_point_bits(entries, source.origin@)
        &&& self.direction@ == transformed_vector_bits(entries, source.direction@)
    }

    /// The line from `a` towards `b`, which reaches `b` at parameter one.
    pub fn from_points(a: Point<3>, b: Point<3>) -> (r: Self)
        requires
            b.bounded(),
        ensures
            r.origin == a,
            r.direction@ == difference_bits(b@, a@),
    {
        Line { origin: a, direction: point_minus(&b, &a) }
    }

    /// Whether origin and direction are bounded.
    pub fn is_bounded(&self) -> (r: bool)
        ensures
            r == self.bounded(),
    {
        self.origin.is_bounded() && self.direction.is_bounded()
    }

    /// Whether the two lines hold the same numbers.
    pub fn same_as(&self, other: &Self) -> (r: bool)
        ensures
            r == self.same(other),
    {
        self.origin.same_as(&other.origin) && self.direction.same_as(&other.direction)
    }

    /// The point at a parameter: the origin plus the direction times the
    /// parameter.
    pub open spec fn point_at(&self, t: u64) -> Seq<u64> {
        translated_bits(self.origin@, scaled_bits(self.direction@, t))
    }

    /// The parameter at which a point of the line lies.
    ///
    /// For a point beside the line this is the parameter of the point of the
    /// line that is nearest to it.
    pub fn point_model_to_curve(&self, point: &Point<3>) -> (r: Point<1>)
        requires
            projectable(point@, self.origin@, self.direction@),
        ensures
            r@ == seq![projection_bits(point@, self.origin@, self.direction@)],
    {
        let r = Point { coords: [project(point, &self.origin, &self.direction)] };
        assert(r@ =~= seq![projection_bits(point@, self.origin@, self.direction@)]);
        r
    }

    /// The parameter at which a point of the line lies, if it can be
    /// computed.
    pub fn try_point_model_to_curve(&self, point: &Point<3>) -> (r: Option<Point<1>>)
        ensures
            r is Some == projectable(point@, self.origin@, self.direction@),
            r is Some ==> r->Some_0@ == seq![
                projection_bits(point@, self.origin@, self.direction@),
            ],
    {
        if can_project(point, &self.origin, &self.direction) {
            Some(self.point_model_to_curve(point))
        } else {
            None
        }
    }

    /// The point of the line at a parameter.
    pub fn point_curve_to_model(&self, point: &Point<1>) -> (r: Point<3>)
        requires
            self.bounded(),
            point.bounded(),
        ensures
            r@ == self.point_at(point@[0]),
    {
        assert(bits_bounded(point@[0]));
        point_plus(&self.origin, &vector_scaled(&self.direction, point.coords[0]))
    }

    /// The vector along the line that a step of the parameter makes.
    pub fn vector_curve_to_model(&self, vector: &Vector<1>) -> (r: Vector<3>)
        requires
            self.direction.bounded(),
            vector.bounded(),
        ensures
            r@ == scaled_bits(self.direction@, vector@[0]),
    {
        assert(bits_bounded(vector@[0]));
        vector_scaled(&self.direction, vector.components[0])
    }

    /// The line that the transform makes of this one: the origin is moved as
    /// a point, the direction as a vector.
    #[must_use]
    pub fn transform(self, transform: &fj_math::Transform) -> (r: Self)
        requires
            self.bounded(),
            transform_bounded(*transform),
        ensures
            r.is_image(&self, transform_entries(*transform)),
    {
        Line {
            origin: transform_point(transform, &self.origin),
            direction: transform_vector(transform, &self.direction),
        }
    }
}

impl Curve {
    /// Whether the numbers that define the curve are bounded.
    pub open spec fn bounded(&self) -> bool {
        match self {
            Curve::Line(line) => line.bounded(),
        }
    }

    /// Whether the two curves are of one kind and hold the same numbers.
    pub open spec fn same(&self, other: &Self) -> bool {
        match (self, other) {
            (Curve::Line(a), Curve::Line(b)) => a.same(b),
        }
    }

    /// Whether this curve is what a transform with the given entries makes of
    /// `source`.
    pub open spec fn is_image(&self, source: &Self, entries: Seq<u64>) -> bool {
        match (self, source) {
            (Curve::Line(a), Curve::Line(b)) => a.is_image(b, entries),
        }
    }

    /// The origin of the curve's coordinates.
    pub open spec fn origin_point(&self) -> Point<3> {
        match self {
            Curve::Line(line) => line.origin,
        }
    }

    /// The points by which the curve itself has to be sampled to stay within
    /// a tolerance. A line is given exactly by the vertices that bound it, so
    /// it needs none, whatever the tolerance.
    pub open spec fn samples(&self, tolerance: fj_math::Scalar) -> Seq<Point<3>> {
        match self {
            Curve::Line(_) => Seq::empty(),
        }
    }

    /// Whether the numbers that define the curve are bounded.
    pub fn is_bounded(&self) -> (r: bool)
        ensures
            r == self.bounded(),
    {
        match self {
            Curve::Line(line) => line.is_bounded(),
        }
    }

    /// Whether the two curves are of one kind and hold the same numbers.
    pub fn same_as(&self, other: &Self) -> (r: bool)
        ensures
            r == self.same(other),
    {
        match (self, other) {
            (Curve::Line(a), Curve::Line(b)) => a.same_as(b),
        }
    }

    /// Whether the parameter of the point on the curve can be computed.
    pub open spec fn maps(&self, point: Seq<u64>) -> bool {
        match self {
            Curve::Line(line) => projectable(point, line.origin@, line.direction@),
        }
    }

    /// The parameter at which a point lies on the curve.
    pub open spec fn parameter_of(&self, point: Seq<u64>) -> u64 {
        match self {
            Curve::Line(line) => projection_bits(point, line.origin@, line.direction@),
        }
    }

    /// The point of the curve at a parameter.
    pub open spec fn point_at(&self, t: u64) -> Seq<u64> {
        match self {
            Curve::Line(line) => line.point_at(t),
        }
    }

    /// The vector along the curve that a step of the parameter makes.
    pub open spec fn vector_at(&self, t: u64) -> Seq<u64> {
        match self {
            Curve::Line(line) => scaled_bits(line.direction@, t),
        }
    }

    /// Whether the vector along the curve for a step of the parameter can be
    /// computed.
    pub open spec fn direction_bounded(&self) -> bool {
        match self {
            Curve::Line(line) => line.direction.bounded(),
        }
    }

    /// Whether the vector along the curve for a step of the parameter can be
    /// computed.
    pub fn is_direction_bounded(&self) -> (r: bool)
        ensures
            r == self.direction_bounded(),
    {
        match self {
            Curve::Line(line) => line.direction.is_bounded(),
        }
    }

    /// The parameter at which a point of the curve lies.
    pub fn point_model_to_curve(&self, point: &Point<3>) -> (r: Point<1>)
        requires
            self.maps(point@),
        ensures
            r@ == seq![self.parameter_of(point@)],
    {
        match self {
            Curve::Line(line) => line.point_model_to_curve(point),
        }
    }

    /// The parameter at which a point of the curve lies, if it can be
    /// computed.
    pub fn try_point_model_to_curve(&self, point: &Point<3>) -> (r: Option<Point<1>>)
        ensures
            r is Some == self.maps(point@),
            r is Some ==> r->Some_0@ == seq![self.parameter_of(point@)],
    {
        match self {
            Curve::Line(line) => line.try_point_model_to_curve(point),
        }
    }

    /// The point of the curve at a parameter.
    pub fn point_curve_to_model(&self, point: &Point<1>) -> (r: Point<3>)
        requires
            self.bounded(),
            point.bounded(),
        ensures
            r@ == self.point_at(point@[0]),
    {
        match self {
            Curve::Line(line) => line.point_curve_to_model(point),
        }
    }

    /// The vector along the curve that a step of the parameter makes.
    pub fn vector_curve_to_model(&self, vector: &Vector<1>) -> (r: Vector<3>)
        requires
            self.direction_bounded(),
            vector.bounded(),
        ensures
            r@ == self.vector_at(vector@[0]),
    {
        match self {
            Curve::Line(line) => line.vector_curve_to_model(vector),
        }
    }

    /// The origin of the curve's coordinates.
    pub fn origin(&self) -> (r: Point<3>)
        ensures
            r == self.origin_point(),
    {
        match self {
            Curve::Line(line) => line.origin,
        }
    }

    /// The curve that the transform makes of this one.
    #[must_use]
    pub fn transform(self, transform: &fj_math::Transform) -> (r: Self)
        requires
            self.bounded(),
            transform_bounded(*transform),
        ensures
            r.is_image(&self, transform_entries(*transform)),
    {
        match self {
            Curve::Line(line) => Curve::Line(line.transform(transform)),
        }
    }

    /// Samples the curve within a tolerance.
    pub fn approx(&self, tolerance: fj_math::Scalar) -> (r: Vec<Point<3>>)
        ensures
            r@ == self.samples(tolerance),
    {
        match self {
            Curve::Line(_) => Vec::new(),
        }
    }
}

} // verus!
