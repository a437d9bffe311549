//! What holds of every swept shape.

use vstd::prelude::*;

use crate::algorithms::approximation::{approximation, closed_chain, linked};
use crate::algorithms::sweep::model::{
    copied_cycles, copied_edges, cycle_continuous, cycle_sides_swept, cycle_swept, edge_swept,
    face_swept, first_uses, seen, side_faces_before, side_rank, side_uses, sides_sized, sweepable,
    swept, uses_at, wall_count, wall_swept, walls_before, walls_swept, SideUse,
};
use crate::algorithms::sweep::relation::edge_ends;
use crate::algorithms::sweep::sides::{lemma_firsts_grow, lemma_seen_push, lemma_uses_step};
use crate::math::Vector;
use crate::shape::{Handle, ShapeView};
use crate::topology::compare::{chains_match, edges_match, faces_match};
use crate::topology::{Edge, Face};

verus! {

/// The bottom copy of an edge matches the edge.
proof fn lemma_bottom_edge_matches(
    source: ShapeView,
    path: Vector<3>,
    tolerance: fj_math::Scalar,
    color: [u8; 4],
    target: ShapeView,
    j: int,
)
    requires
        sweepable(source),
        target.wf(),
        swept(source, path, tolerance, color, target),
        0 <= j < source.edges.len(),
    ensures
        edges_match(target, target.edges[2 * j], source, source.edges[j]),
{
    let edge = source.edges[j];
    assert(edge_swept(source, path, target, j, edge));
    assert(source.edge_valid(edge));
    let copy = target.edges[2 * j];
    assert(copy.curve.index as int == 2 * j);
    assert(target.curves[2 * j].same(&source.curves[edge.curve.index as int]));
    match edge.vertices {
        Some(ends) => {
            assert(edge_ends(copy) is Some);
            let copies = copy.vertices->Some_0;
            let first = ends[0].index as int;
            let last = ends[1].index as int;
            assert(target.vertices[2 * first] == source.vertices[first]);
            assert(target.vertices[2 * last] == source.vertices[last]);
            assert(copies[0].index as int == 2 * first);
            assert(copies[1].index as int == 2 * last);
            assert(target.vertices[2 * first].0.same(&source.vertices[first].0));
            assert(target.vertices[2 * last].0.same(&source.vertices[last].0));
        },
        None => {
            assert(edge_ends(copy) is None);
        },
    }
}

/// The bottom copy of a cycle matches the cycle.
proof fn lemma_bottom_cycle_matches(
    source: ShapeView,
    path: Vector<3>,
    tolerance: fj_math::Scalar,
    color: [u8; 4],
    target: ShapeView,
    k: int,
)
    requires
        sweepable(source),
        target.wf(),
        swept(source, path, tolerance, color, target),
        0 <= k < source.cycles.len(),
    ensures
        chains_match(target, target.cycles[2 * k].edges@, source, source.cycles[k].edges@),
{
    let cycle = source.cycles[k];
    assert(cycle_swept(target, k, cycle));
    assert(source.cycle_valid(cycle));
    let copies = target.cycles[2 * k].edges@;
    assert(copies == copied_edges(target.id, cycle.edges@, 0));
    assert forall|i: int| 0 <= i < copies.len() implies edges_match(
        target,
        target.edges[(#[trigger] copies[i]).index as int],
        source,
        source.edges[cycle.edges@[i].index as int],
    ) by {
        assert(source.owns_edge(cycle.edges@[i]));
        let j = cycle.edges@[i].index as int;
        lemma_bottom_edge_matches(source, path, tolerance, color, target, j);
        assert(copies[i].index as int == 2 * j);
    }
}

/// The bottom cap over each face of the source is that face again: it lies
/// on the same surface and is bounded by matching cycles.
pub proof fn lemma_bottom_cap_matches(
    source: ShapeView,
    path: Vector<3>,
    tolerance: fj_math::Scalar,
    color: [u8; 4],
    target: ShapeView,
    f: int,
)
    requires
        sweepable(source),
        target.wf(),
        swept(source, path, tolerance, color, target),
        0 <= f < source.faces.len(),
    ensures
        faces_match(target, target.faces[2 * f], source, source.faces[f]),
{
    let face = source.faces[f];
    assert(face_swept(source, path, color, target, f, face));
    assert(source.face_valid(face));
    let cap = target.faces[2 * f];
    assert(cap->surface.index as int == 2 * f);
    assert(target.surfaces[2 * f].same(&source.surfaces[face->surface.index as int]));
    let copies = cap->cycles@;
    assert(copies == copied_cycles(target.id, face->cycles@, 0));
    assert forall|i: int| 0 <= i < copies.len() implies chains_match(
        target,
        target.cycles[(#[trigger] copies[i]).index as int].edges@,
        source,
        source.cycles[face->cycles@[i].index as int].edges@,
    ) by {
        assert(source.owns_cycle(face->cycles@[i]));
        let k = face->cycles@[i].index as int;
        lemma_bottom_cycle_matches(source, path, tolerance, color, target, k);
        assert(copies[i].index as int == 2 * k);
    }
}

/// The place in the source of the vertex at which the edge at place `m` of
/// the first cycle begins, for `end` zero, or ends, for `end` one.
pub open spec fn chain_vertex(source: ShapeView, m: int, end: int) -> int {
    source.edges[source.cycles[0].edges@[m].index as int].vertices->Some_0[end].index as int
}

/// Along a closed chain each edge begins at a vertex that already has its
/// side edge, so it asks for one new side edge at most, and the last edge for
/// none.
proof fn lemma_chain_firsts(source: ShapeView, m: int)
    requires
        closed_chain(source, source.cycles[0].edges@),
        1 <= m <= source.cycles[0].edges@.len(),
    ensures
        first_uses(uses_at(source, 0, m)).len() <= m + 1,
        seen(uses_at(source, 0, m), chain_vertex(source, 0, 0)),
        seen(uses_at(source, 0, m), chain_vertex(source, m - 1, 1)),
        m == source.cycles[0].edges@.len() && m >= 2 ==> first_uses(uses_at(source, 0, m)).len()
            <= m,
    decreases m,
{
    let edges = source.cycles[0].edges@;
    let n = edges.len() as int;
    let step = m - 1;
    let before = uses_at(source, 0, step);
    let j = edges[step].index as int;
    let first = SideUse { vertex: chain_vertex(source, step, 0), edge: j };
    let last = SideUse { vertex: chain_vertex(source, step, 1), edge: j };
    lemma_uses_step(source, 0, step);
    assert(uses_at(source, 0, m) == before.push(first).push(last));
    lemma_firsts_grow(before, first);
    lemma_firsts_grow(before.push(first), last);
    lemma_seen_push(before, first, chain_vertex(source, 0, 0));
    lemma_seen_push(before.push(first), last, chain_vertex(source, 0, 0));
    lemma_seen_push(before.push(first), last, last.vertex);
    if m == 1 {
        assert(before =~= Seq::<SideUse>::empty()) by {
            assert(edges.take(0) =~= Seq::<Handle<Edge>>::empty());
        }
        assert(first_uses(before).len() == 0);
    } else {
        lemma_chain_firsts(source, step);
        assert(linked(source, edges, step - 1));
        assert((step - 1 + 1) % n == step) by (nonlinear_arith)
            requires
                1 <= step < n,
        ;
        assert(chain_vertex(source, step - 1, 1) == first.vertex);
        assert(seen(before, first.vertex));
        lemma_seen_push(before, first, last.vertex);
        if m == n {
            assert(linked(source, edges, step));
            assert((step + 1) % n == 0) by (nonlinear_arith)
                requires
                    step + 1 == n,
                    n >= 1,
            ;
            assert(last.vertex == chain_vertex(source, 0, 0));
            assert(seen(before.push(first), last.vertex));
        }
    }
}

/// The side edge at a vertex stays the same while more edges of the cycle ask
/// for side edges.
proof fn lemma_rank_stable(source: ShapeView, from: int, to: int, vertex: int)
    requires
        0 <= from <= to <= source.cycles[0].edges@.len(),
        seen(uses_at(source, 0, from), vertex),
    ensures
        seen(uses_at(source, 0, to), vertex),
        side_rank(uses_at(source, 0, to), vertex) == side_rank(uses_at(source, 0, from), vertex),
    decreases to - from,
{
    if from < to {
        lemma_rank_stable(source, from, to - 1, vertex);
        let before = uses_at(source, 0, to - 1);
        let j = source.cycles[0].edges@[to - 1].index as int;
        let first = SideUse { vertex: chain_vertex(source, to - 1, 0), edge: j };
        let last = SideUse { vertex: chain_vertex(source, to - 1, 1), edge: j };
        lemma_uses_step(source, 0, to - 1);
        lemma_firsts_grow(before, first);
        lemma_firsts_grow(before.push(first), last);
        lemma_seen_push(before, first, vertex);
        lemma_seen_push(before.push(first), last, vertex);
    }
}

/// A polygon has as many side faces as edges, and no more side edges.
proof fn lemma_polygon_counts(source: ShapeView, target: ShapeView)
    requires
        source.cycles.len() == 1,
        source.cycles[0].edges@.len() >= 2,
        closed_chain(source, source.cycles[0].edges@),
        sides_sized(source, target, 1, 0),
    ensures
        target.faces.len() == 2 * source.faces.len() + source.cycles[0].edges@.len(),
        target.edges.len() <= 2 * source.edges.len() + source.cycles[0].edges@.len(),
{
    let cycle = source.cycles[0];
    let edges = cycle.edges@;
    let n = edges.len() as int;
    assert(!cycle_continuous(source, cycle));
    assert(side_uses(source, 0) =~= Seq::<SideUse>::empty());
    assert(side_faces_before(source, 0) == 0);
    assert(side_faces_before(source, 1) == n);
    assert(edges.take(n) =~= edges);
    assert(side_uses(source, 1) =~= uses_at(source, 0, n));
    lemma_chain_firsts(source, n);
}

/// The side face over an edge of a polygon is there.
proof fn lemma_polygon_face(
    source: ShapeView,
    path: Vector<3>,
    tolerance: fj_math::Scalar,
    color: [u8; 4],
    target: ShapeView,
    m: int,
)
    requires
        source.cycles.len() == 1,
        source.cycles[0].edges@.len() >= 2,
        walls_swept(source, path, tolerance, color, target, 1, 0),
        0 <= m < source.cycles[0].edges@.len(),
    ensures
        wall_swept(source, path, color, target, 0, m, source.cycles[0].edges@[m]),
        target.faces[2 * source.faces.len() + m] is Face,
{
    reveal(walls_swept);
    reveal(wall_swept);
    assert(side_faces_before(source, 0) == 0);
    assert(cycle_sides_swept(
        source,
        path,
        tolerance,
        color,
        target,
        0,
        source.cycles[0].edges@.len() as int,
        source.cycles[0],
    ));
}

/// The side faces over two edges of a polygon that meet at a vertex share the
/// side edge at that vertex.
proof fn lemma_polygon_shared(
    source: ShapeView,
    path: Vector<3>,
    color: [u8; 4],
    target: ShapeView,
    m: int,
    next: int,
)
    requires
        source.cycles.len() == 1,
        closed_chain(source, source.cycles[0].edges@),
        0 <= m < source.cycles[0].edges@.len(),
        next == (m + 1) % (source.cycles[0].edges@.len() as int),
        0 <= next < source.cycles[0].edges@.len(),
        wall_swept(source, path, color, target, 0, m, source.cycles[0].edges@[m]),
        wall_swept(source, path, color, target, 0, next, source.cycles[0].edges@[next]),
    ensures
        target.cycles[2 + m].edges@[3] == target.cycles[2 + next].edges@[2],
{
    reveal(wall_swept);
    let edges = source.cycles[0].edges@;
    let n = edges.len() as int;
    assert(walls_before(source, 0) == 0);
    let vertex = chain_vertex(source, m, 1);
    assert(linked(source, edges, m));
    assert(vertex == chain_vertex(source, next, 0));
    let here = uses_at(source, 0, m + 1);
    let there = uses_at(source, 0, next + 1);
    lemma_uses_step(source, 0, m);
    lemma_uses_step(source, 0, next);
    let j = edges[m].index as int;
    lemma_seen_push(
        uses_at(source, 0, m).push(SideUse { vertex: chain_vertex(source, m, 0), edge: j }),
        SideUse { vertex, edge: j },
        vertex,
    );
    assert(seen(here, vertex));
    let i = edges[next].index as int;
    lemma_seen_push(uses_at(source, 0, next), SideUse { vertex, edge: i }, vertex);
    lemma_seen_push(
        uses_at(source, 0, next).push(SideUse { vertex, edge: i }),
        SideUse { vertex: chain_vertex(source, next, 1), edge: i },
        vertex,
    );
    assert(seen(there, vertex));
    lemma_rank_stable(source, m + 1, n, vertex);
    lemma_rank_stable(source, next + 1, n, vertex);
    assert(side_rank(here, vertex) == side_rank(there, vertex));
}

/// Sweeping a polygon gives one side face for each of its edges and no more
/// side edges than it has edges: the side edge at a vertex is shared by the
/// side faces over the two edges that meet there.
///
/// A polygon is a shape with one cycle of two or more edges that form a
/// closed chain. The side face over the edge at place `m` is the face at place
/// `m` behind the caps, and its cycle has the side edge at the edge's first
/// vertex in third place and the one at its last vertex in fourth place.
pub proof fn lemma_polygon_sides(
    source: ShapeView,
    path: Vector<3>,
    tolerance: fj_math::Scalar,
    color: [u8; 4],
    target: ShapeView,
)
    requires
        sweepable(source),
        target.wf(),
        swept(source, path, tolerance, color, target),
        source.cycles.len() == 1,
        source.cycles[0].edges@.len() >= 2,
        closed_chain(source, source.cycles[0].edges@),
    ensures
        target.faces.len() == 2 * source.faces.len() + source.cycles[0].edges@.len(),
        forall|m: int|
            0 <= m < source.cycles[0].edges@.len() ==> (#[trigger] target.faces[2
                * source.faces.len() + m]) is Face,
        target.edges.len() <= 2 * source.edges.len() + source.cycles[0].edges@.len(),
        forall|m: int|
            0 <= m < source.cycles[0].edges@.len() ==> (#[trigger] target.cycles[2 + m]).edges@[3]
                == target.cycles[2 + (m + 1) % (source.cycles[0].edges@.len() as int)].edges@[2],
{
    let n = source.cycles[0].edges@.len() as int;
    let faces = 2 * source.faces.len();
    lemma_polygon_counts(source, target);
    assert forall|m: int| 0 <= m < n implies (#[trigger] target.faces[faces + m]) is Face by {
        lemma_polygon_face(source, path, tolerance, color, target, m);
        assert(side_faces_before(source, 0) == 0);
    }
    assert forall|m: int| 0 <= m < n implies (#[trigger] target.cycles[2 + m]).edges@[3]
        == target.cycles[2 + (m + 1) % n].edges@[2] by {
        let next = (m + 1) % n;
        assert(0 <= next < n) by (nonlinear_arith)
            requires
                0 <= m < n,
                next == (m + 1) % n,
        ;
        lemma_polygon_face(source, path, tolerance, color, target, m);
        lemma_polygon_face(source, path, tolerance, color, target, next);
        lemma_polygon_shared(source, path, color, target, m, next);
    }
}

/// Sweeping a shape whose one cycle is a single continuous edge gives no side
/// face on a surface, and one face of triangles: two triangles for each step
/// of the cycle's approximation.
///
/// For an approximation of `n` points, `n` at least one, these are
/// `2 (n - 1)` triangles. An approximation without points has no steps and
/// gives no triangle.
pub proof fn lemma_continuous_fallback(
    source: ShapeView,
    path: Vector<3>,
    tolerance: fj_math::Scalar,
    color: [u8; 4],
    target: ShapeView,
)
    requires
        sweepable(source),
        target.wf(),
        swept(source, path, tolerance, color, target),
        source.cycles.len() == 1,
        cycle_continuous(source, source.cycles[0]),
    ensures
        target.surfaces.len() == 2 * source.faces.len(),
        target.faces.len() == 2 * source.faces.len() + 1,
        target.faces[2 * source.faces.len() as int] is Triangles,
        target.faces[2 * source.faces.len() as int]->Triangles_0@.len() == wall_count(
            approximation(source, source.cycles[0].edges@, tolerance).len(),
        ),
        approximation(source, source.cycles[0].edges@, tolerance).len() >= 1
            ==> target.faces[2 * source.faces.len() as int]->Triangles_0@.len() == 2 * (
        approximation(source, source.cycles[0].edges@, tolerance).len() - 1),
{
    reveal(walls_swept);
    assert(walls_before(source, 0) == 0);
    assert(side_faces_before(source, 0) == 0);
    assert(walls_before(source, 1) == 0);
    assert(side_faces_before(source, 1) == 1);
    assert(sides_sized(source, target, 1, 0));
    assert(cycle_sides_swept(
        source,
        path,
        tolerance,
        color,
        target,
        0,
        source.cycles[0].edges@.len() as int,
        source.cycles[0],
    ));
}

} // verus!
