//! Faces.

use vstd::prelude::*;

use crate::geometry::Surface;
use crate::math::Point;
use crate::shape::{Handle, Shape};
use crate::topology::edges::Cycle;

verus! {

/// A triangle with a colour.
#[derive(Clone, Copy, Debug, PartialEq, Eq)]
pub struct Triangle<const D: usize> {
    /// The three corners.
    pub points: [Point<D>; 3],
    /// Red, green, blue and alpha.
    pub color: [u8; 4],
}

/// A face of a shape.
///
/// Two faces are the same face when their surfaces and their cycles are the
/// same. The colour is no part of that. Faces made of triangles are not
/// compared.
#[derive(Clone, Debug)]
pub enum Face {
    /// A face on a surface, bounded by cycles that lie in that surface.
    Face {
        /// The surface that the face lies on.
        surface: Handle<Surface>,
        /// The cycles that bound the face.
        cycles: Vec<Handle<Cycle>>,
        /// Red, green, blue and alpha.
        color: [u8; 4],
    },
    /// A face given by the triangles that cover it: the form for faces that
    /// boundaries cannot describe yet.
    Triangles(Vec<Triangle<3>>),
}

impl<const D: usize> Triangle<D> {
    /// A triangle from its corners and its colour.
    pub fn new(points: [Point<D>; 3], color: [u8; 4]) -> (r: Self)
        ensures
            r.points == points,
            r.color == color,
    {
        Triangle { points, color }
    }

    /// The three corners.
    pub fn points(&self) -> (r: [Point<D>; 3])
        ensures
            r == self.points,
    {
        self.points
    }
}

impl Face {
    /// Whether the face is given by a surface and cycles.
    pub open spec fn bounded_by_cycles(&self) -> bool {
        self is Face
    }

    /// The surface that the face lies on, looked up in the shape that holds
    /// the face. The face is one that is bounded by cycles.
    pub fn surface(&self, shape: &Shape) -> (r: Surface)
        requires
            self is Face,
            shape@.face_valid(*self),
        ensures
            r == shape@.surfaces[self->surface.index as int],
    {
        let handle = match self {
            Face::Face { surface, .. } => surface,
            Face::Triangles(_) => vstd::pervasive::unreached(),
        };
        match shape.surface(handle) {
            Some(surface) => surface,
            None => vstd::pervasive::unreached(),
        }
    }

    /// The cycles that bound the face, looked up in the shape that holds the
    /// face. The face is one that is bounded by cycles.
    pub fn cycles(&self, shape: &Shape) -> (r: Vec<Cycle>)
        requires
            self is Face,
            shape@.face_valid(*self),
        ensures
            r@.len() == self->cycles@.len(),
            forall|i: int|
                0 <= i < r@.len() ==> (#[trigger] r@[i]).edges@
                    == shape@.cycles[self->cycles@[i].index as int].edges@,
    {
        let handles = match self {
            Face::Face { cycles, .. } => cycles,
            Face::Triangles(_) => vstd::pervasive::unreached(),
        };
        let mut cycles: Vec<Cycle> = Vec::new();
        let mut i: usize = 0;
        while i < handles.len()
            invariant
                0 <= i <= handles.len(),
                shape@.owns_cycles(handles@),
                cycles@.len() == i,
                forall|j: int|
                    0 <= j < i ==> (#[trigger] cycles@[j]).edges@
                        == shape@.cycles[handles@[j].index as int].edges@,
            decreases handles.len() - i,
        {
            assert(shape@.owns_cycle(handles@[i as int]));
            let cycle = match shape.cycle(&handles[i]) {
                Some(cycle) => cycle.duplicate(),
                None => vstd::pervasive::unreached(),
            };
            cycles.push(cycle);
            i += 1;
        }
        cycles
    }

    /// Whether the face is given by a surface and cycles.
    pub fn is_bounded_by_cycles(&self) -> (r: bool)
        ensures
            r == self.bounded_by_cycles(),
    {
        match self {
            Face::Face { .. } => true,
            Face::Triangles(_) => false,
        }
    }
}

} // verus!
