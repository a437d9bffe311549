//! Edges and cycles.

use vstd::prelude::*;

use crate::geometry::Curve;
use crate::shape::Handle;
use crate::topology::vertices::Vertex;

verus! {

/// An edge: a stretch of a curve.
#[derive(Clone, Copy, Debug, PartialEq, Eq)]
pub struct Edge {
    /// The curve that the edge lies on.
    pub curve: Handle<Curve>,
    /// The two vertices that bound the edge, first and last. An edge without
    /// vertices is continuous: its curve closes on itself.
    pub vertices: Option<[Handle<Vertex<3>>; 2]>,
}

/// A cycle: edges that form a closed loop, in order.
///
/// A cycle is either a single continuous edge or a chain of edges with
/// vertices. That the chain is connected and closed is not checked.
#[derive(Clone, Debug, PartialEq, Eq)]
pub struct Cycle {
    /// The edges of the loop, in order.
    pub edges: Vec<Handle<Edge>>,
}

impl Edge {
    /// Whether the edge has no vertices.
    pub open spec fn continuous(&self) -> bool {
        self.vertices is None
    }

    /// Whether the edge has no vertices.
    pub fn is_continuous(&self) -> (r: bool)
        ensures
            r == self.continuous(),
    {
        self.vertices.is_none()
    }
}

impl Cycle {
    /// A copy of the cycle.
    pub fn duplicate(&self) -> (r: Self)
        ensures
            r.edges@ == self.edges@,
    {
        let mut edges: Vec<Handle<Edge>> = Vec::new();
        let mut i: usize = 0;
        while i < self.edges.len()
            invariant
                0 <= i <= self.edges.len(),
                edges@ == self.edges@.take(i as int),
            decreases self.edges.len() - i,
        {
            edges.push(self.edges[i]);
            assert(edges@ =~= self.edges@.take(i + 1));
            i += 1;
        }
        assert(self.edges@.take(self.edges@.len() as int) =~= self.edges@);
        Cycle { edges }
    }
}

} // verus!
