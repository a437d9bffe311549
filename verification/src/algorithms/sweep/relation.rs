//! Relations between the objects of a source shape and their copies.

use std::collections::HashMap;
use vstd::prelude::*;

use crate::shape::Handle;
use crate::topology::{Cycle, Edge, Face, Vertex};

verus! {

/// For the vertices, edges and cycles of a source shape, the handles of their
/// copies in another shape. An object is looked up by the place that its
/// handle gives.
pub struct Relation {
    /// From the place of a source vertex to its copy.
    pub vertices: HashMap<usize, Handle<Vertex<3>>>,
    /// From the place of a source edge to its copy.
    pub edges: HashMap<usize, Handle<Edge>>,
    /// From the place of a source cycle to its copy.
    pub cycles: HashMap<usize, Handle<Cycle>>,
}

/// The two vertices of an edge, if it has any.
pub open spec fn edge_ends(edge: Edge) -> Option<(Handle<Vertex<3>>, Handle<Vertex<3>>)> {
    match edge.vertices {
        Some(vertices) => Some((vertices[0], vertices[1])),
        None => None,
    }
}

impl Relation {
    /// Whether the relation knows the copies of both vertices of the edge.
    pub open spec fn covers_edge(&self, edge: Edge) -> bool {
        match edge.vertices {
            Some(vertices) => self.vertices@.contains_key(vertices[0].index)
                && self.vertices@.contains_key(vertices[1].index),
            None => true,
        }
    }

    /// Whether the relation knows the copy of each of the edges.
    pub open spec fn covers_edges(&self, edges: Seq<Handle<Edge>>) -> bool {
        forall|i: int|
            0 <= i < edges.len() ==> self.edges@.contains_key((#[trigger] edges[i]).index)
    }

    /// Whether the relation knows the copy of each of the cycles.
    pub open spec fn covers_cycles(&self, cycles: Seq<Handle<Cycle>>) -> bool {
        forall|i: int|
            0 <= i < cycles.len() ==> self.cycles@.contains_key((#[trigger] cycles[i]).index)
    }

    /// The copies of the edges, in their order.
    pub open spec fn edge_copies(&self, edges: Seq<Handle<Edge>>) -> Seq<Handle<Edge>> {
        Seq::new(edges.len(), |i: int| self.edges@[edges[i].index])
    }

    /// The copies of the cycles, in their order.
    pub open spec fn cycle_copies(&self, cycles: Seq<Handle<Cycle>>) -> Seq<Handle<Cycle>> {
        Seq::new(cycles.len(), |i: int| self.cycles@[cycles[i].index])
    }

    /// A relation that knows nothing yet.
    pub fn new() -> (r: Self)
        ensures
            r.vertices@ == Map::<usize, Handle<Vertex<3>>>::empty(),
            r.edges@ == Map::<usize, Handle<Edge>>::empty(),
            r.cycles@ == Map::<usize, Handle<Cycle>>::empty(),
    {
        Relation { vertices: HashMap::new(), edges: HashMap::new(), cycles: HashMap::new() }
    }

    /// The copies of the edge's two vertices, or nothing for a continuous
    /// edge.
    pub fn vertices_for_edge(&self, edge: &Edge) -> (r: Option<[Handle<Vertex<3>>; 2]>)
        requires
            self.covers_edge(*edge),
        ensures
            match edge.vertices {
                Some(vertices) => r is Some && r->Some_0[0] == self.vertices@[vertices[0].index]
                    && r->Some_0[1] == self.vertices@[vertices[1].index],
                None => r is None,
            },
    {
        match edge.vertices {
            Some(vertices) => {
                let first = match self.vertices.get(&vertices[0].index) {
                    Some(copy) => *copy,
                    None => vstd::pervasive::unreached(),
                };
                let last = match self.vertices.get(&vertices[1].index) {
                    Some(copy) => *copy,
                    None => vstd::pervasive::unreached(),
                };
                Some([first, last])
            },
            None => None,
        }
    }

    /// The copies of the cycle's edges, in their order.
    pub fn edges_for_cycle(&self, cycle: &Cycle) -> (r: Vec<Handle<Edge>>)
        requires
            self.covers_edges(cycle.edges@),
        ensures
            r@ == self.edge_copies(cycle.edges@),
    {
        let mut copies: Vec<Handle<Edge>> = Vec::new();
        let mut i: usize = 0;
        while i < cycle.edges.len()
            invariant
                0 <= i <= cycle.edges.len(),
                self.covers_edges(cycle.edges@),
                copies@ == self.edge_copies(cycle.edges@).take(i as int),
            decreases cycle.edges.len() - i,
        {
            assert(self.edges@.contains_key(cycle.edges@[i as int].index));
            let copy = match self.edges.get(&cycle.edges[i].index) {
                Some(copy) => *copy,
                None => vstd::pervasive::unreached(),
            };
            copies.push(copy);
            assert(copies@ =~= self.edge_copies(cycle.edges@).take(i + 1));
            i += 1;
        }
        assert(copies@ =~= self.edge_copies(cycle.edges@));
        copies
    }

    /// The copies of the face's cycles, in their order. The face is one that
    /// is bounded by cycles.
    pub fn cycles_for_face(&self, face: &Face) -> (r: Vec<Handle<Cycle>>)
        requires
            face is Face,
            self.covers_cycles(face->cycles@),
        ensures
            r@ == self.cycle_copies(face->cycles@),
    {
        let cycles = match face {
            Face::Face { cycles, .. } => cycles,
            Face::Triangles(_) => vstd::pervasive::unreached(),
        };
        let mut copies: Vec<Handle<Cycle>> = Vec::new();
        let mut i: usize = 0;
        while i < cycles.len()
            invariant
                0 <= i <= cycles.len(),
                self.covers_cycles(cycles@),
                copies@ == self.cycle_copies(cycles@).take(i as int),
            decreases cycles.len() - i,
        {
            assert(self.cycles@.contains_key(cycles@[i as int].index));
            let copy = match self.cycles.get(&cycles[i].index) {
                Some(copy) => *copy,
                None => vstd::pervasive::unreached(),
            };
            copies.push(copy);
            assert(copies@ =~= self.cycle_copies(cycles@).take(i + 1));
            i += 1;
        }
        assert(copies@ =~= self.cycle_copies(cycles@));
        copies
    }
}

} // verus!
