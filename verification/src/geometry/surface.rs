//! Surfaces: two-dimensional objects in model space.

use vstd::prelude::*;

use crate::geometry;
use crate::geometry::curve::{can_project, project, projectable, projection_bits, Curve, Line};
use crate::math::scalar::{
    bits_bounded, lemma_constants_bounded, seq_bounded, ONE_BITS, ZERO_BITS,
};
use crate::math::transform::{
    transform_bounded, transform_entries, transform_vector, transformed_vector_bits,
};
use crate::math::vector::{
    difference_bits, point_minus, point_origin, point_plus, scaled_bits, translated_bits,
    vector_plus, vector_scaled, vector_sum_bits, vector_unit_x, vector_unit_y,
};
use crate::math::{Point, Vector};

verus! {

/// A surface that a curve sweeps out when it is moved along a path.
///
/// The point at `(u, v)` is the curve's point at `u`, plus `v` times the path.
/// The path must not be zero. The surface itself does not check that.
#[derive(Clone, Copy, Debug, PartialEq, Eq)]
pub struct SweptCurve {
    /// The curve that the surface was swept from.
    pub curve: Curve,
    /// The path that the curve was swept along.
    pub path: Vector<3>,
}

/// A surface. Swept curves are the only kind so far.
#[derive(Clone, Copy, Debug, PartialEq, Eq)]
pub enum Surface {
    /// A swept curve.
    SweptCurve(SweptCurve),
}

impl SweptCurve {
    /// Whether curve and path are bounded.
    pub open spec fn bounded(&self) -> bool {
        self.curve.bounded() && self.path.bounded()
    }

    /// Whether the two surfaces hold the same numbers.
    pub open spec fn same(&self, other: &Self) -> bool {
        self.curve.same(&other.curve) && self.path.same(&other.path)
    }

    /// Whether this surface is what a transform with the given entries makes
    /// of `source`.
    pub open spec fn is_image(&self, source: &Self, entries: Seq<u64>) -> bool {
        &&& self.curve.is_image(&source.curve, entries)
        &&& self.path@ == transformed_vector_bits(entries, source.path@)
    }

    /// Whether the surface coordinates of a point of model space can be
    /// computed: its parameter on the curve, and its parameter along the path
    /// from the curve's origin.
    pub open spec fn maps(&self, point: Seq<u64>) -> bool {
        self.curve.maps(point) && projectable(point, self.curve.origin_point()@, self.path@)
    }

    /// The surface coordinates of a point of model space: its parameter on
    /// the curve, and its parameter along the path from the curve's origin.
    pub open spec fn coordinates_of(&self, point: Seq<u64>) -> Seq<u64> {
        seq![
            self.curve.parameter_of(point),
            projection_bits(point, self.curve.origin_point()@, self.path@),
        ]
    }

    /// Whether the point at surface coordinates can be computed: surface and
    /// coordinates are bounded, and so is the point of the curve at the first
    /// coordinate.
    pub open spec fn reaches(&self, point: Seq<u64>) -> bool {
        &&& self.bounded()
        &&& seq_bounded(point)
        &&& seq_bounded(self.curve.point_at(point[0]))
    }

    /// The point at surface coordinates: the point of the curve at the first
    /// coordinate, plus the path times the second.
    pub open spec fn point_at(&self, point: Seq<u64>) -> Seq<u64> {
        translated_bits(self.curve.point_at(point[0]), scaled_bits(self.path@, point[1]))
    }

    /// Whether the vector for a step of the surface coordinates can be
    /// computed: surface and step are bounded, and so is the vector along the
    /// curve for the first coordinate of the step.
    pub open spec fn carries(&self, vector: Seq<u64>) -> bool {
        &&& self.curve.direction_bounded()
        &&& self.path.bounded()
        &&& seq_bounded(vector)
        &&& seq_bounded(self.curve.vector_at(vector[0]))
    }

    /// The vector for a step of the surface coordinates: the vector along the
    /// curve for the first coordinate, plus the path times the second.
    pub open spec fn vector_at(&self, vector: Seq<u64>) -> Seq<u64> {
        vector_sum_bits(self.curve.vector_at(vector[0]), scaled_bits(self.path@, vector[1]))
    }

    /// Converts a point in model coordinates to surface coordinates.
    pub fn point_model_to_surface(&self, point: &Point<3>) -> (r: Point<2>)
        requires
            self.maps(point@),
        ensures
            r@ == self.coordinates_of(point@),
    {
        let u = self.curve.point_model_to_curve(point);
        let v = project(point, &self.curve.origin(), &self.path);
        assert(u@[0] == self.curve.parameter_of(point@));
        let r = Point::from_uv(u.coords[0], v);
        assert(r@ =~= self.coordinates_of(point@));
        r
    }

    /// Converts a point in model coordinates to surface coordinates, if they
    /// can be computed.
    pub fn try_point_model_to_surface(&self, point: &Point<3>) -> (r: Option<Point<2>>)
        ensures
            r is Some == self.maps(point@),
            r is Some ==> r->Some_0@ == self.coordinates_of(point@),
    {
        match self.curve.try_point_model_to_curve(point) {
            Some(_) => {
                if can_project(point, &self.curve.origin(), &self.path) {
                    Some(self.point_model_to_surface(point))
                } else {
                    None
                }
            },
            None => None,
        }
    }

    /// Converts a point in surface coordinates to model coordinates.
    pub fn point_surface_to_model(&self, point: &Point<2>) -> (r: Point<3>)
        requires
            self.reaches(point@),
        ensures
            r@ == self.point_at(point@),
    {
        assert(bits_bounded(point@[0]));
        assert(bits_bounded(point@[1]));
        let t = point.to_t();
        let on_curve = self.curve.point_curve_to_model(&t);
        point_plus(&on_curve, &vector_scaled(&self.path, point.coords[1]))
    }

    /// Converts a point in surface coordinates to model coordinates, if they
    /// can be computed.
    pub fn try_point_surface_to_model(&self, point: &Point<2>) -> (r: Option<Point<3>>)
        ensures
            r is Some == self.reaches(point@),
            r is Some ==> r->Some_0@ == self.point_at(point@),
    {
        if !self.is_bounded() || !point.is_bounded() {
            return None;
        }
        assert(bits_bounded(point@[0]));
        let t = point.to_t();
        if self.curve.point_curve_to_model(&t).is_bounded() {
            Some(self.point_surface_to_model(point))
        } else {
            None
        }
    }

    /// Converts a vector in surface coordinates to model coordinates.
    pub fn vector_surface_to_model(&self, vector: &Vector<2>) -> (r: Vector<3>)
        requires
            self.carries(vector@),
        ensures
            r@ == self.vector_at(vector@),
    {
        assert(bits_bounded(vector@[0]));
        assert(bits_bounded(vector@[1]));
        let t = vector.to_t();
        let along_curve = self.curve.vector_curve_to_model(&t);
        vector_plus(&along_curve, &vector_scaled(&self.path, vector.components[1]))
    }

    /// Converts a vector in surface coordinates to model coordinates, if they
    /// can be computed.
    pub fn try_vector_surface_to_model(&self, vector: &Vector<2>) -> (r: Option<Vector<3>>)
        ensures
            r is Some == self.carries(vector@),
            r is Some ==> r->Some_0@ == self.vector_at(vector@),
    {
        if !self.curve.is_direction_bounded() || !self.path.is_bounded() || !vector.is_bounded() {
            return None;
        }
        assert(bits_bounded(vector@[0]));
        let t = vector.to_t();
        if self.curve.vector_curve_to_model(&t).is_bounded() {
            Some(self.vector_surface_to_model(vector))
        } else {
            None
        }
    }

    /// The plane through three points: the line from `a` towards `b`, swept
    /// along the step from `a` to `c`.
    pub fn plane_from_points(points: [Point<3>; 3]) -> (r: Self)
        requires
            points[1].bounded(),
            points[2].bounded(),
        ensures
            r.curve->Line_0.origin == points[0],
            r.curve->Line_0.direction@ == difference_bits(points[1]@, points[0]@),
            r.path@ == difference_bits(points[2]@, points[0]@),
    {
        let curve = Curve::Line(Line::from_points(points[0], points[1]));
        let path = point_minus(&points[2], &points[0]);
        SweptCurve { curve, path }
    }

    /// Whether curve and path are bounded.
    pub fn is_bounded(&self) -> (r: bool)
        ensures
            r == self.bounded(),
    {
        self.curve.is_bounded() && self.path.is_bounded()
    }

    /// Whether the two surfaces hold the same numbers.
    pub fn same_as(&self, other: &Self) -> (r: bool)
        ensures
            r == self.same(other),
    {
        self.curve.same_as(&other.curve) && self.path.same_as(&other.path)
    }

    /// The surface that the transform makes of this one: the curve is
    /// transformed, the path is moved as a vector.
    #[must_use]
    pub fn transform(self, transform: &fj_math::Transform) -> (r: Self)
        requires
            self.bounded(),
            transform_bounded(*transform),
        ensures
            r.is_image(&self, transform_entries(*transform)),
    {
        SweptCurve {
            curve: self.curve.transform(transform),
            path: transform_vector(transform, &self.path),
        }
    }
}

impl Surface {
    /// Whether the numbers that define the surface are bounded.
    pub open spec fn bounded(&self) -> bool {
        match self {
            Surface::SweptCurve(surface) => surface.bounded(),
        }
    }

    /// Whether the two surfaces are of one kind and hold the same numbers.
    pub open spec fn same(&self, other: &Self) -> bool {
        match (self, other) {
            (Surface::SweptCurve(a), Surface::SweptCurve(b)) => a.same(b),
        }
    }

    /// Whether this surface is what a transform with the given entries makes
    /// of `source`.
    pub open spec fn is_image(&self, source: &Self, entries: Seq<u64>) -> bool {
        match (self, source) {
            (Surface::SweptCurve(a), Surface::SweptCurve(b)) => a.is_image(b, entries),
        }
    }

    /// Whether the surface coordinates of a point of model space can be
    /// computed.
    pub open spec fn maps(&self, point: Seq<u64>) -> bool {
        match self {
            Surface::SweptCurve(surface) => surface.maps(point),
        }
    }

    /// The surface coordinates of a point of model space.
    pub open spec fn coordinates_of(&self, point: Seq<u64>) -> Seq<u64> {
        match self {
            Surface::SweptCurve(surface) => surface.coordinates_of(point),
        }
    }

    /// Whether the point at surface coordinates can be computed.
    pub open spec fn reaches(&self, point: Seq<u64>) -> bool {
        match self {
            Surface::SweptCurve(surface) => surface.reaches(point),
        }
    }

    /// The point at surface coordinates.
    pub open spec fn point_at(&self, point: Seq<u64>) -> Seq<u64> {
        match self {
            Surface::SweptCurve(surface) => surface.point_at(point),
        }
    }

    /// Whether the vector for a step of the surface coordinates can be
    /// computed.
    pub open spec fn carries(&self, vector: Seq<u64>) -> bool {
        match self {
            Surface::SweptCurve(surface) => surface.carries(vector),
        }
    }

    /// The vector for a step of the surface coordinates.
    pub open spec fn vector_at(&self, vector: Seq<u64>) -> Seq<u64> {
        match self {
            Surface::SweptCurve(surface) => surface.vector_at(vector),
        }
    }

    /// Converts a point in model coordinates to surface coordinates. The
    /// point that is returned keeps the model coordinates as its canonical
    /// form.
    pub fn point_model_to_surface(&self, point_3d: Point<3>) -> (r: geometry::Point<2>)
        requires
            self.maps(point_3d@),
        ensures
            r.native@ == self.coordinates_of(point_3d@),
            r.canonical == point_3d,
    {
        let point_2d = match self {
            Surface::SweptCurve(surface) => surface.point_model_to_surface(&point_3d),
        };
        geometry::Point::new(point_2d, point_3d)
    }

    /// Converts a point in model coordinates to surface coordinates, if they
    /// can be computed.
    pub fn try_point_model_to_surface(&self, point_3d: Point<3>) -> (r: Option<
        geometry::Point<2>,
    >)
        ensures
            r is Some == self.maps(point_3d@),
            r is Some ==> r->Some_0.native@ == self.coordinates_of(point_3d@)
                && r->Some_0.canonical == point_3d,
    {
        let found = match self {
            Surface::SweptCurve(surface) => surface.try_point_model_to_surface(&point_3d),
        };
        match found {
            Some(_) => Some(self.point_model_to_surface(point_3d)),
            None => None,
        }
    }

    /// Converts a point in surface coordinates to model coordinates.
    pub fn point_surface_to_model(&self, point: &Point<2>) -> (r: Point<3>)
        requires
            self.reaches(point@),
        ensures
            r@ == self.point_at(point@),
    {
        match self {
            Surface::SweptCurve(surface) => surface.point_surface_to_model(point),
        }
    }

    /// Converts a point in surface coordinates to model coordinates, if they
    /// can be computed.
    pub fn try_point_surface_to_model(&self, point: &Point<2>) -> (r: Option<Point<3>>)
        ensures
            r is Some == self.reaches(point@),
            r is Some ==> r->Some_0@ == self.point_at(point@),
    {
        match self {
            Surface::SweptCurve(surface) => surface.try_point_surface_to_model(point),
        }
    }

    /// Converts a vector in surface coordinates to model coordinates.
    pub fn vector_surface_to_model(&self, vector: &Vector<2>) -> (r: Vector<3>)
        requires
            self.carries(vector@),
        ensures
            r@ == self.vector_at(vector@),
    {
        match self {
            Surface::SweptCurve(surface) => surface.vector_surface_to_model(vector),
        }
    }

    /// Converts a vector in surface coordinates to model coordinates, if they
    /// can be computed.
    pub fn try_vector_surface_to_model(&self, vector: &Vector<2>) -> (r: Option<Vector<3>>)
        ensures
            r is Some == self.carries(vector@),
            r is Some ==> r->Some_0@ == self.vector_at(vector@),
    {
        match self {
            Surface::SweptCurve(surface) => surface.try_vector_surface_to_model(vector),
        }
    }

    /// The plane of the first two model coordinates: the first axis, swept
    /// along the second.
    pub fn x_y_plane() -> (r: Self)
        ensures
            r->SweptCurve_0.curve->Line_0.origin@ == seq![ZERO_BITS, ZERO_BITS, ZERO_BITS],
            r->SweptCurve_0.curve->Line_0.direction@ == seq![ONE_BITS, ZERO_BITS, ZERO_BITS],
            r->SweptCurve_0.path@ == seq![ZERO_BITS, ONE_BITS, ZERO_BITS],
            r.bounded(),
    {
        let r = Surface::SweptCurve(
            SweptCurve {
                curve: Curve::Line(Line { origin: point_origin(), direction: vector_unit_x() }),
                path: vector_unit_y(),
            },
        );
        proof {
            lemma_constants_bounded();
        }
        r
    }

    /// Whether the numbers that define the surface are bounded.
    pub fn is_bounded(&self) -> (r: bool)
        ensures
            r == self.bounded(),
    {
        match self {
            Surface::SweptCurve(surface) => surface.is_bounded(),
        }
    }

    /// Whether the two surfaces are of one kind and hold the same numbers.
    pub fn same_as(&self, other: &Self) -> (r: bool)
        ensures
            r == self.same(other),
    {
        match (self, other) {
            (Surface::SweptCurve(a), Surface::SweptCurve(b)) => a.same_as(b),
        }
    }

    /// The surface that the transform makes of this one.
    #[must_use]
    pub fn transform(self, transform: &fj_math::Transform) -> (r: Self)
        requires
            self.bounded(),
            transform_bounded(*transform),
        ensures
            r.is_image(&self, transform_entries(*transform)),
    {
        match self {
            Surface::SweptCurve(surface) => Surface::SweptCurve(surface.transform(transform)),
        }
    }
}

} // verus!
