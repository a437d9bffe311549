//! Comparison of faces by what they are made of.
//!
//! Handles are followed into the shapes that issued them, and the objects
//! found there are compared: curves, surfaces and vertices by their numbers,
//! edges by their curve and vertices, cycles by their edges in order. Two
//! faces of different shapes can so be the same face.

use vstd::prelude::*;

use crate::shape::{Handle, Shape, ShapeView};
use crate::topology::edges::{Cycle, Edge};
use crate::topology::faces::Face;

verus! {

/// Whether two edges, each of its shape, lie on the same curve between the
/// same vertices, or are both continuous on the same curve.
pub open spec fn edges_match(a: ShapeView, first: Edge, b: ShapeView, second: Edge) -> bool {
    &&& a.curves[first.curve.index as int].same(&b.curves[second.curve.index as int])
    &&& match (first.vertices, second.vertices) {
        (Some(ends), Some(others)) => a.vertices[ends[0].index as int].0.same(
            &b.vertices[others[0].index as int].0,
        ) && a.vertices[ends[1].index as int].0.same(&b.vertices[others[1].index as int].0),
        (None, None) => true,
        _ => false,
    }
}

/// Whether two chains of edges, each of its shape, have as many edges and
/// match edge by edge.
pub open spec fn chains_match(
    a: ShapeView,
    first: Seq<Handle<Edge>>,
    b: ShapeView,
    second: Seq<Handle<Edge>>,
) -> bool {
    &&& first.len() == second.len()
    &&& forall|i: int|
        0 <= i < first.len() ==> edges_match(
            a,
            a.edges[(#[trigger] first[i]).index as int],
            b,
            b.edges[second[i].index as int],
        )
}

/// Whether two lists of cycles, each of its shape, have as many cycles and
/// match cycle by cycle.
pub open spec fn boundaries_match(
    a: ShapeView,
    first: Seq<Handle<Cycle>>,
    b: ShapeView,
    second: Seq<Handle<Cycle>>,
) -> bool {
    &&& first.len() == second.len()
    &&& forall|i: int|
        0 <= i < first.len() ==> chains_match(
            a,
            a.cycles[(#[trigger] first[i]).index as int].edges@,
            b,
            b.cycles[second[i].index as int].edges@,
        )
}

/// Whether two faces, each of its shape and each bounded by cycles, are the
/// same face: the same surface, bounded by matching cycles. The colours are
/// not compared.
pub open spec fn faces_match(a: ShapeView, first: Face, b: ShapeView, second: Face) -> bool {
    &&& first is Face
    &&& second is Face
    &&& a.surfaces[first->surface.index as int].same(&b.surfaces[second->surface.index as int])
    &&& boundaries_match(a, first->cycles@, b, second->cycles@)
}

/// Whether two edges match.
pub fn edges_same(a: &Shape, first: &Edge, b: &Shape, second: &Edge) -> (r: bool)
    requires
        a@.edge_valid(*first),
        b@.edge_valid(*second),
    ensures
        r == edges_match(a@, *first, b@, *second),
{
    let curve = match a.curve(&first.curve) {
        Some(curve) => curve,
        None => vstd::pervasive::unreached(),
    };
    let other_curve = match b.curve(&second.curve) {
        Some(curve) => curve,
        None => vstd::pervasive::unreached(),
    };
    if !curve.same_as(&other_curve) {
        return false;
    }
    match (first.vertices, second.vertices) {
        (Some(ends), Some(others)) => {
            let start = match a.vertex(&ends[0]) {
                Some(vertex) => vertex,
                None => vstd::pervasive::unreached(),
            };
            let other_start = match b.vertex(&others[0]) {
                Some(vertex) => vertex,
                None => vstd::pervasive::unreached(),
            };
            if !start.point().same_as(&other_start.point()) {
                return false;
            }
            let end = match a.vertex(&ends[1]) {
                Some(vertex) => vertex,
                None => vstd::pervasive::unreached(),
            };
            let other_end = match b.vertex(&others[1]) {
                Some(vertex) => vertex,
                None => vstd::pervasive::unreached(),
            };
            end.point().same_as(&other_end.point())
        },
        (None, None) => true,
        _ => false,
    }
}

/// Whether two cycles match.
pub fn cycles_same(a: &Shape, first: &Cycle, b: &Shape, second: &Cycle) -> (r: bool)
    requires
        a.wf(),
        b.wf(),
        a@.owns_edges(first.edges@),
        b@.owns_edges(second.edges@),
    ensures
        r == chains_match(a@, first.edges@, b@, second.edges@),
{
    if first.edges.len() != second.edges.len() {
        return false;
    }
    let mut i: usize = 0;
    while i < first.edges.len()
        invariant
            0 <= i <= first.edges.len(),
            first.edges@.len() == second.edges@.len(),
            a.wf(),
            b.wf(),
            a@.owns_edges(first.edges@),
            b@.owns_edges(second.edges@),
            forall|n: int|
                0 <= n < i ==> edges_match(
                    a@,
                    a@.edges[(#[trigger] first.edges@[n]).index as int],
                    b@,
                    b@.edges[second.edges@[n].index as int],
                ),
        decreases first.edges.len() - i,
    {
        assert(a@.owns_edge(first.edges@[i as int]));
        assert(b@.owns_edge(second.edges@[i as int]));
        let edge = match a.edge(&first.edges[i]) {
            Some(edge) => edge,
            None => vstd::pervasive::unreached(),
        };
        let other = match b.edge(&second.edges[i]) {
            Some(edge) => edge,
            None => vstd::pervasive::unreached(),
        };
        assert(a@.edge_valid(a@.edges[first.edges@[i as int].index as int]));
        assert(b@.edge_valid(b@.edges[second.edges@[i as int].index as int]));
        if !edges_same(a, &edge, b, &other) {
            return false;
        }
        i += 1;
    }
    true
}

/// Whether two faces, each bounded by cycles, are the same face.
pub fn faces_same(a: &Shape, first: &Face, b: &Shape, second: &Face) -> (r: bool)
    requires
        a.wf(),
        b.wf(),
        first is Face,
        second is Face,
        a@.face_valid(*first),
        b@.face_valid(*second),
    ensures
        r == faces_match(a@, *first, b@, *second),
{
    if !first.surface(a).same_as(&second.surface(b)) {
        return false;
    }
    let cycles = match first {
        Face::Face { cycles, .. } => cycles,
        Face::Triangles(_) => vstd::pervasive::unreached(),
    };
    let others = match second {
        Face::Face { cycles, .. } => cycles,
        Face::Triangles(_) => vstd::pervasive::unreached(),
    };
    if cycles.len() != others.len() {
        return false;
    }
    let mut i: usize = 0;
    while i < cycles.len()
        invariant
            0 <= i <= cycles.len(),
            cycles@.len() == others@.len(),
            first is Face,
            first->cycles == *cycles,
            second is Face,
            second->cycles == *others,
            a@.surfaces[first->surface.index as int].same(
                &b@.surfaces[second->surface.index as int],
            ),
            a.wf(),
            b.wf(),
            a@.owns_cycles(cycles@),
            b@.owns_cycles(others@),
            forall|n: int|
                0 <= n < i ==> chains_match(
                    a@,
                    a@.cycles[(#[trigger] cycles@[n]).index as int].edges@,
                    b@,
                    b@.cycles[others@[n].index as int].edges@,
                ),
        decreases cycles.len() - i,
    {
        assert(a@.owns_cycle(cycles@[i as int]));
        assert(b@.owns_cycle(others@[i as int]));
        let cycle = match a.cycle(&cycles[i]) {
            Some(cycle) => cycle,
            None => vstd::pervasive::unreached(),
        };
        let other = match b.cycle(&others[i]) {
            Some(cycle) => cycle,
            None => vstd::pervasive::unreached(),
        };
        assert(a@.cycle_valid(a@.cycles[cycles@[i as int].index as int]));
        assert(b@.cycle_valid(b@.cycles[others@[i as int].index as int]));
        if !cycles_same(a, cycle, b, other) {
            return false;
        }
        i += 1;
    }
    true
}

} // verus!
