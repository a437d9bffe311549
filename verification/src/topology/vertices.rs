//! Vertices.

use vstd::prelude::*;

use crate::geometry;
use crate::geometry::Curve;
use crate::math::transform::{
    transform_bounded, transform_entries, transform_point, transformed_point_bits,
};

verus! {

/// A vertex: a point that is part of a shape's topology.
///
/// Two vertices that stand for the same place must be copies of one another.
/// A vertex computed a second time may differ from the first in its last
/// digits, and would then no longer be equal to it.
#[derive(Clone, Copy, Debug, PartialEq, Eq)]
pub struct Vertex<const D: usize>(pub geometry::Point<D>);

/// The vertices of a shape, in the order in which they were created.
#[derive(Clone, Debug)]
pub struct Vertices(pub Vec<Vertex<3>>);

impl Vertices {
    /// Creates a vertex at the point, records it and returns it.
    ///
    /// The caller sees to it that no vertex is created twice.
    pub fn create(&mut self, point: geometry::Point<3>) -> (vertex: Vertex<3>)
        ensures
            vertex == Vertex(point),
            final(self).0@ == old(self).0@.push(vertex),
    {
        let vertex = Vertex(point);
        self.0.push(vertex);
        vertex
    }
}

impl<const D: usize> Vertex<D> {
    /// A vertex at the point.
    pub fn new(point: geometry::Point<D>) -> (r: Self)
        ensures
            r == Vertex(point),
    {
        Vertex(point)
    }

    /// The point that defines the vertex.
    pub fn point(&self) -> (r: geometry::Point<D>)
        ensures
            r == self.0,
    {
        self.0
    }

    /// The vertex in model space: both forms of its point are the canonical
    /// form of this vertex's point.
    pub fn to_canonical(self) -> (r: Vertex<3>)
        ensures
            r == Vertex(
                (geometry::Point::<3> { native: self.0.canonical, canonical: self.0.canonical }),
            ),
    {
        Vertex(geometry::Point::new(self.0.canonical(), self.0.canonical()))
    }
}

impl Vertex<1> {
    /// The vertex that the transform makes of this one.
    ///
    /// Only the canonical form is transformed. The native form is a parameter
    /// on a curve, and stays what it is: the caller transforms that curve.
    #[must_use]
    pub fn transform(self, transform: &fj_math::Transform) -> (r: Self)
        requires
            self.0.canonical.bounded(),
            transform_bounded(*transform),
        ensures
            r.0.native == self.0.native,
            r.0.canonical@ == transformed_point_bits(
                transform_entries(*transform),
                self.0.canonical@,
            ),
    {
        Vertex(
            geometry::Point::new(self.0.native(), transform_point(transform, &self.0.canonical())),
        )
    }
}

impl Vertex<3> {
    /// The vertex as a vertex on a curve: its native form becomes its
    /// parameter on the curve, its canonical form stays.
    pub fn to_1d(self, curve: &Curve) -> (r: Vertex<1>)
        requires
            curve.maps(self.0.canonical@),
        ensures
            r.0.native@ == seq![curve.parameter_of(self.0.canonical@)],
            r.0.canonical == self.0.canonical,
    {
        let canonical = self.0.canonical();
        Vertex(geometry::Point::new(curve.point_model_to_curve(&canonical), canonical))
    }

    /// The vertex as a vertex on a curve, if its parameter on the curve can
    /// be computed.
    pub fn try_to_1d(self, curve: &Curve) -> (r: Option<Vertex<1>>)
        ensures
            r is Some == curve.maps(self.0.canonical@),
            r is Some ==> r->Some_0.0.native@ == seq![curve.parameter_of(self.0.canonical@)]
                && r->Some_0.0.canonical == self.0.canonical,
    {
        let canonical = self.0.canonical();
        match curve.try_point_model_to_curve(&canonical) {
            Some(_) => Some(self.to_1d(curve)),
            None => None,
        }
    }
}

} // verus!
