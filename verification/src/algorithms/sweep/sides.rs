//! The sides: what connects the bottom copy of each cycle to its top copy.

use std::collections::HashMap;
use vstd::prelude::*;

use crate::algorithms::approximation::{
    approximate_cycle, approximation, chain_points, lemma_chain_bounded,
    lemma_without_repeats_bounded, points_bounded,
};
use crate::algorithms::sweep::caps::{relates, stored};
use crate::algorithms::sweep::model::{
    cycle_continuous, cycle_sides_swept, cycle_swept, cycles_swept, edge_swept, edge_uses,
    edges_swept, face_swept, faces_swept, first_uses, is_wall, quad_swept, seen, side_edge_swept,
    side_edges_swept, side_faces_before, side_rank, side_uses, sides_swept, sweepable, uses_at,
    wall_swept, walls_before, walls_swept, SideUse,
};
use crate::algorithms::sweep::relation::{edge_ends, Relation};
use crate::geometry::{Curve, Surface, SweptCurve};
use crate::math::transform::{
    lemma_translation_bounded, transform_bounded, transform_entries, transform_point,
    translation, translation_entries,
};
use crate::math::{Point, Vector};
use crate::shape::{handle_at, Handle, Shape, ShapeView};
use crate::topology::{Cycle, Edge, Face, Triangle, Vertex};

verus! {

/// The wall of triangles over a chain of points: over each step from one
/// point to the next stands a quad, whose upper corners are the two points
/// moved along the path, and each quad is cut into two triangles of the given
/// colour.
pub fn wall_triangles(points: &Vec<Point<3>>, path: &Vector<3>, color: [u8; 4]) -> (r: Vec<
    Triangle<3>,
>)
    requires
        points_bounded(points@),
        path.bounded(),
    ensures
        is_wall(r@, points@, *path, color),
{
    let mut triangles: Vec<Triangle<3>> = Vec::new();
    if points.len() == 0 {
        return triangles;
    }
    let lift = translation(path);
    proof {
        lemma_translation_bounded(path@);
    }
    let mut w: usize = 0;
    while w + 1 < points.len()
        invariant
            points.len() >= 1,
            0 <= w <= points.len() - 1,
            points_bounded(points@),
            transform_entries(lift) == translation_entries(path@),
            transform_bounded(lift),
            triangles@.len() == 2 * w,
            forall|i: int|
                0 <= i < w ==> quad_swept(
                    #[trigger] points@[i],
                    points@[i + 1],
                    *path,
                    color,
                    triangles@[2 * i],
                    triangles@[2 * i + 1],
                ),
        decreases points.len() - w,
    {
        let a: Point<3> = points[w];
        let b: Point<3> = points[w + 1];
        assert(points@[w as int].bounded());
        assert(points@[w + 1].bounded());
        let above_a = transform_point(&lift, &a);
        let above_b = transform_point(&lift, &b);
        let ghost before = triangles@;
        triangles.push(Triangle::new([a, b, above_b], color));
        triangles.push(Triangle::new([a, above_b, above_a], color));
        proof {
            assert forall|i: int| 0 <= i < w + 1 implies quad_swept(
                #[trigger] points@[i],
                points@[i + 1],
                *path,
                color,
                triangles@[2 * i],
                triangles@[2 * i + 1],
            ) by {
                if i < w {
                    assert(quad_swept(
                        points@[i],
                        points@[i + 1],
                        *path,
                        color,
                        before[2 * i],
                        before[2 * i + 1],
                    ));
                }
            }
        }
        w += 1;
    }
    triangles
}

/// Whether the cache holds, for each vertex at which a side edge has been
/// asked for, the handle of that side edge under the place of the vertex's
/// bottom copy, and nothing for the other vertices.
#[verifier::opaque]
pub open spec fn cache_holds(
    cache: Map<usize, Handle<Edge>>,
    source: ShapeView,
    target: u64,
    uses: Seq<SideUse>,
) -> bool {
    forall|v: int|
        0 <= v < source.vertices.len() ==> (cache.contains_key((2 * v) as usize) <==> #[trigger] seen(
            uses,
            v,
        )) && (seen(uses, v) ==> cache[(2 * v) as usize] == handle_at::<Edge>(
            target,
            2 * source.edges.len() + side_rank(uses, v),
        ))
}

/// A side edge has been asked for at a vertex once it has been asked for
/// there before, or is asked for there now.
pub proof fn lemma_seen_push(uses: Seq<SideUse>, last: SideUse, vertex: int)
    ensures
        seen(uses.push(last), vertex) <==> (seen(uses, vertex) || last.vertex == vertex),
{
    let next = uses.push(last);
    if seen(uses, vertex) {
        let i = choose|i: int| 0 <= i < uses.len() && (#[trigger] uses[i]).vertex == vertex;
        assert(next[i].vertex == vertex);
    }
    if last.vertex == vertex {
        assert(next[uses.len() as int].vertex == vertex);
    }
    if seen(next, vertex) {
        let i = choose|i: int| 0 <= i < next.len() && (#[trigger] next[i]).vertex == vertex;
        if i < uses.len() {
            assert(uses[i].vertex == vertex);
        }
    }
}

/// The side edge at a vertex at which one has been asked for is one of those
/// that were made, and it was made for that vertex.
pub proof fn lemma_rank_in_range(uses: Seq<SideUse>, vertex: int)
    requires
        seen(uses, vertex),
    ensures
        0 <= side_rank(uses, vertex) < first_uses(uses).len(),
        first_uses(uses)[side_rank(uses, vertex)].vertex == vertex,
    decreases uses.len(),
{
    let front = uses.drop_last();
    assert(uses.len() > 0);
    assert(uses =~= front.push(uses.last()));
    lemma_seen_push(front, uses.last(), vertex);
    if seen(front, vertex) {
        lemma_rank_in_range(front, vertex);
    }
}

/// The side edges that were made stay where they are when more are asked
/// for.
pub proof fn lemma_firsts_grow(uses: Seq<SideUse>, last: SideUse)
    ensures
        first_uses(uses.push(last)) == if seen(uses, last.vertex) {
            first_uses(uses)
        } else {
            first_uses(uses).push(last)
        },
        forall|vertex: int|
            seen(uses, vertex) ==> side_rank(uses.push(last), vertex) == side_rank(uses, vertex),
        !seen(uses, last.vertex) ==> side_rank(uses.push(last), last.vertex) == first_uses(
            uses,
        ).len(),
{
    let next = uses.push(last);
    assert(next.drop_last() =~= uses);
    assert(next.last() == last);
}

/// What the cache says of a vertex.
proof fn lemma_cache_lookup(
    cache: Map<usize, Handle<Edge>>,
    source: ShapeView,
    target: u64,
    uses: Seq<SideUse>,
    v: int,
)
    requires
        cache_holds(cache, source, target, uses),
        0 <= v < source.vertices.len(),
    ensures
        cache.contains_key((2 * v) as usize) <==> seen(uses, v),
        seen(uses, v) ==> cache[(2 * v) as usize] == handle_at::<Edge>(
            target,
            2 * source.edges.len() + side_rank(uses, v),
        ),
{
    reveal(cache_holds);
}

/// An empty cache is right as long as no side edge has been asked for.
proof fn lemma_cache_empty(source: ShapeView, target: u64)
    ensures
        cache_holds(Map::<usize, Handle<Edge>>::empty(), source, target, Seq::<SideUse>::empty()),
{
    reveal(cache_holds);
}

/// The cache stays right when a side edge is asked for at a vertex that has
/// one.
proof fn lemma_cache_hit(
    cache: Map<usize, Handle<Edge>>,
    source: ShapeView,
    target: u64,
    uses: Seq<SideUse>,
    last: SideUse,
)
    requires
        cache_holds(cache, source, target, uses),
        seen(uses, last.vertex),
    ensures
        cache_holds(cache, source, target, uses.push(last)),
{
    reveal(cache_holds);
    let next = uses.push(last);
    lemma_firsts_grow(uses, last);
    assert forall|w: int| 0 <= w < source.vertices.len() implies (cache.contains_key(
        (2 * w) as usize,
    ) <==> #[trigger] seen(next, w)) && (seen(next, w) ==> cache[(2 * w) as usize]
        == handle_at::<Edge>(target, 2 * source.edges.len() + side_rank(next, w))) by {
        lemma_seen_push(uses, last, w);
        assert(seen(uses, w) <==> seen(next, w));
    }
}

/// The cache stays right when the side edge that was made for a vertex is
/// put into it.
proof fn lemma_cache_miss(
    cache: Map<usize, Handle<Edge>>,
    source: ShapeView,
    target: u64,
    uses: Seq<SideUse>,
    last: SideUse,
    made: Handle<Edge>,
)
    requires
        cache_holds(cache, source, target, uses),
        source.countable(),
        0 <= last.vertex < source.vertices.len(),
        2 * source.vertices.len() <= usize::MAX,
        !seen(uses, last.vertex),
        made == handle_at::<Edge>(
            target,
            2 * source.edges.len() + first_uses(uses).len() as int,
        ),
    ensures
        cache_holds(cache.insert((2 * last.vertex) as usize, made), source, target, uses.push(last)),
{
    reveal(cache_holds);
    let next = uses.push(last);
    let grown = cache.insert((2 * last.vertex) as usize, made);
    lemma_firsts_grow(uses, last);
    assert forall|w: int| 0 <= w < source.vertices.len() implies (grown.contains_key(
        (2 * w) as usize,
    ) <==> #[trigger] seen(next, w)) && (seen(next, w) ==> grown[(2 * w) as usize]
        == handle_at::<Edge>(target, 2 * source.edges.len() + side_rank(next, w))) by {
        lemma_seen_push(uses, last, w);
        if w != last.vertex {
            assert((2 * w) as usize != (2 * last.vertex) as usize);
            assert(seen(uses, w) <==> seen(next, w));
            assert(cache.contains_key((2 * w) as usize) <==> seen(uses, w));
        }
    }
}

/// What the target holds of side edges, it still holds when it has grown.
pub proof fn lemma_side_edges_kept(
    source: ShapeView,
    earlier: ShapeView,
    later: ShapeView,
    firsts: Seq<SideUse>,
)
    requires
        side_edges_swept(source, earlier, firsts),
        later.extends(earlier),
    ensures
        side_edges_swept(source, later, firsts),
{
    reveal(side_edges_swept);
    assert forall|r: int| 0 <= r < firsts.len() implies side_edge_swept(
        source,
        later,
        r,
        #[trigger] firsts[r],
    ) by {
        assert(side_edge_swept(source, earlier, r, firsts[r]));
    }
}

/// The side edge of a rank is among the side edges.
pub proof fn lemma_side_edge_at(source: ShapeView, target: ShapeView, firsts: Seq<SideUse>, r: int)
    requires
        side_edges_swept(source, target, firsts),
        0 <= r < firsts.len(),
    ensures
        side_edge_swept(source, target, r, firsts[r]),
{
    reveal(side_edges_swept);
}

/// No side edges are held as long as none was made.
pub proof fn lemma_side_edges_none(source: ShapeView, target: ShapeView)
    ensures
        side_edges_swept(source, target, Seq::<SideUse>::empty()),
{
    reveal(side_edges_swept);
}

/// The side edges are held when the one that was made last is.
pub proof fn lemma_side_edges_push(
    source: ShapeView,
    target: ShapeView,
    firsts: Seq<SideUse>,
    last: SideUse,
)
    requires
        side_edges_swept(source, target, firsts),
        side_edge_swept(source, target, firsts.len() as int, last),
    ensures
        side_edges_swept(source, target, firsts.push(last)),
{
    reveal(side_edges_swept);
    let grown = firsts.push(last);
    assert forall|r: int| 0 <= r < grown.len() implies side_edge_swept(
        source,
        target,
        r,
        #[trigger] grown[r],
    ) by {
        if r < firsts.len() {
            assert(side_edge_swept(source, target, r, firsts[r]));
        }
    }
}

/// What the target holds of the side faces of one cycle, it still holds when
/// it has grown.
pub proof fn lemma_cycle_sides_kept(
    source: ShapeView,
    path: Vector<3>,
    tolerance: fj_math::Scalar,
    color: [u8; 4],
    earlier: ShapeView,
    later: ShapeView,
    k: int,
    edges: int,
)
    requires
        cycle_sides_swept(source, path, tolerance, color, earlier, k, edges, source.cycles[k]),
        later.extends(earlier),
    ensures
        cycle_sides_swept(source, path, tolerance, color, later, k, edges, source.cycles[k]),
{
    let cycle = source.cycles[k];
    if !cycle_continuous(source, cycle) {
        assert forall|m: int| 0 <= m < edges implies wall_swept(
            source,
            path,
            color,
            later,
            k,
            m,
            #[trigger] cycle.edges@[m],
        ) by {
            assert(wall_swept(source, path, color, earlier, k, m, cycle.edges@[m]));
            lemma_wall_kept(source, path, color, earlier, later, k, m);
        }
    }
}

/// What the target holds of one side face, it still holds when it has grown.
pub proof fn lemma_wall_kept(
    source: ShapeView,
    path: Vector<3>,
    color: [u8; 4],
    earlier: ShapeView,
    later: ShapeView,
    k: int,
    m: int,
)
    requires
        wall_swept(source, path, color, earlier, k, m, source.cycles[k].edges@[m]),
        later.extends(earlier),
    ensures
        wall_swept(source, path, color, later, k, m, source.cycles[k].edges@[m]),
{
    reveal(wall_swept);
}

/// What the target holds of side faces, it still holds when it has grown.
pub proof fn lemma_walls_kept(
    source: ShapeView,
    path: Vector<3>,
    tolerance: fj_math::Scalar,
    color: [u8; 4],
    earlier: ShapeView,
    later: ShapeView,
    k: int,
    m: int,
)
    requires
        walls_swept(source, path, tolerance, color, earlier, k, m),
        later.extends(earlier),
    ensures
        walls_swept(source, path, tolerance, color, later, k, m),
{
    reveal(walls_swept);
    assert forall|c: int| 0 <= c < k implies cycle_sides_swept(
        source,
        path,
        tolerance,
        color,
        later,
        c,
        source.cycles[c].edges@.len() as int,
        #[trigger] source.cycles[c],
    ) by {
        lemma_cycle_sides_kept(
            source,
            path,
            tolerance,
            color,
            earlier,
            later,
            c,
            source.cycles[c].edges@.len() as int,
        );
    }
    if m > 0 {
        lemma_cycle_sides_kept(source, path, tolerance, color, earlier, later, k, m);
    }
}

/// No side faces are held before the first cycle.
pub proof fn lemma_walls_none(
    source: ShapeView,
    path: Vector<3>,
    tolerance: fj_math::Scalar,
    color: [u8; 4],
    target: ShapeView,
)
    ensures
        walls_swept(source, path, tolerance, color, target, 0, 0),
{
    reveal(walls_swept);
}

/// The side faces are held as far as one more edge when the side face over
/// that edge is.
pub proof fn lemma_wall_added(
    source: ShapeView,
    path: Vector<3>,
    tolerance: fj_math::Scalar,
    color: [u8; 4],
    target: ShapeView,
    k: int,
    m: int,
)
    requires
        walls_swept(source, path, tolerance, color, target, k, m),
        !cycle_continuous(source, source.cycles[k]),
        0 <= m,
        wall_swept(source, path, color, target, k, m, source.cycles[k].edges@[m]),
    ensures
        walls_swept(source, path, tolerance, color, target, k, m + 1),
{
    reveal(walls_swept);
    let cycle = source.cycles[k];
    assert forall|n: int| 0 <= n < m + 1 implies wall_swept(
        source,
        path,
        color,
        target,
        k,
        n,
        #[trigger] cycle.edges@[n],
    ) by {
        if n < m {
            assert(cycle_sides_swept(source, path, tolerance, color, target, k, m, cycle));
        }
    }
}

/// The side faces of the cycles up to and with the cycle at place `k` are
/// held when those of the cycles before it and those of all its edges are.
pub proof fn lemma_walls_next(
    source: ShapeView,
    path: Vector<3>,
    tolerance: fj_math::Scalar,
    color: [u8; 4],
    target: ShapeView,
    k: int,
    m: int,
)
    requires
        0 <= k,
        walls_swept(source, path, tolerance, color, target, k, m),
        cycle_sides_swept(
            source,
            path,
            tolerance,
            color,
            target,
            k,
            source.cycles[k].edges@.len() as int,
            source.cycles[k],
        ),
    ensures
        walls_swept(source, path, tolerance, color, target, k + 1, 0),
{
    reveal(walls_swept);
    assert forall|c: int| 0 <= c < k + 1 implies cycle_sides_swept(
        source,
        path,
        tolerance,
        color,
        target,
        c,
        source.cycles[c].edges@.len() as int,
        #[trigger] source.cycles[c],
    ) by {}
}

/// The side faces of all edges of a cycle are held when they are held as far
/// as its last edge.
pub proof fn lemma_walls_whole(
    source: ShapeView,
    path: Vector<3>,
    tolerance: fj_math::Scalar,
    color: [u8; 4],
    target: ShapeView,
    k: int,
)
    requires
        walls_swept(
            source,
            path,
            tolerance,
            color,
            target,
            k,
            source.cycles[k].edges@.len() as int,
        ),
        !cycle_continuous(source, source.cycles[k]),
    ensures
        cycle_sides_swept(
            source,
            path,
            tolerance,
            color,
            target,
            k,
            source.cycles[k].edges@.len() as int,
            source.cycles[k],
        ),
{
    reveal(walls_swept);
}

/// What the target holds of the copies of edges, it still holds when it has
/// grown.
pub proof fn lemma_edges_kept(
    source: ShapeView,
    path: Vector<3>,
    earlier: ShapeView,
    later: ShapeView,
)
    requires
        edges_swept(source, path, earlier),
        later.extends(earlier),
    ensures
        edges_swept(source, path, later),
{
    assert forall|j: int| 0 <= j < source.edges.len() implies edge_swept(
        source,
        path,
        later,
        j,
        #[trigger] source.edges[j],
    ) by {
        assert(edge_swept(source, path, earlier, j, source.edges[j]));
    }
}

/// What the target holds of the copies of cycles and faces, it still holds
/// when it has grown.
pub proof fn lemma_caps_kept(
    source: ShapeView,
    path: Vector<3>,
    color: [u8; 4],
    earlier: ShapeView,
    later: ShapeView,
)
    requires
        cycles_swept(source, earlier),
        faces_swept(source, path, color, earlier),
        later.extends(earlier),
    ensures
        cycles_swept(source, later),
        faces_swept(source, path, color, later),
{
    assert forall|k: int| 0 <= k < source.cycles.len() implies cycle_swept(
        later,
        k,
        #[trigger] source.cycles[k],
    ) by {
        assert(cycle_swept(earlier, k, source.cycles[k]));
    }
    assert forall|f: int| 0 <= f < source.faces.len() implies face_swept(
        source,
        path,
        color,
        later,
        f,
        #[trigger] source.faces[f],
    ) by {
        assert(face_swept(source, path, color, earlier, f, source.faces[f]));
    }
}

/// The side edge at a vertex: the one that was made when a side edge was
/// first asked for there, or else a new one, from the bottom copy of the
/// vertex to its top copy, on a copy of the curve of the edge that asks.
fn side_edge(
    source: &Shape,
    target: &mut Shape,
    cache: &mut HashMap<usize, Handle<Edge>>,
    bottom: &Relation,
    top: &Relation,
    vertex: Handle<Vertex<3>>,
    curve: Curve,
    Ghost(uses): Ghost<Seq<SideUse>>,
    Ghost(edge): Ghost<int>,
) -> (handle: Handle<Edge>)
    requires
        source@.countable(),
        source@.owns_vertex(vertex),
        0 <= edge < source@.edges.len(),
        curve == source@.curves[source@.edges[edge].curve.index as int],
        old(target).wf(),
        old(target)@.vertices.len() == 2 * source@.vertices.len(),
        old(target)@.curves.len() == 2 * source@.edges.len() + first_uses(uses).len(),
        old(target)@.edges.len() == 2 * source@.edges.len() + first_uses(uses).len(),
        relates(bottom.vertices@, old(target)@.id, source@.vertices.len() as int, 0),
        relates(top.vertices@, old(target)@.id, source@.vertices.len() as int, 1),
        cache_holds(old(cache)@, source@, old(target)@.id, uses),
        side_edges_swept(source@, old(target)@, first_uses(uses)),
    ensures
        final(target).wf(),
        final(target)@.extends(old(target)@),
        final(target)@.surfaces == old(target)@.surfaces,
        final(target)@.cycles == old(target)@.cycles,
        final(target)@.faces == old(target)@.faces,
        ({
            let next = uses.push(SideUse { vertex: vertex.index as int, edge });
            &&& final(target)@.curves.len() == 2 * source@.edges.len() + first_uses(next).len()
            &&& final(target)@.edges.len() == 2 * source@.edges.len() + first_uses(next).len()
            &&& cache_holds(final(cache)@, source@, old(target)@.id, next)
            &&& side_edges_swept(source@, final(target)@, first_uses(next))
            &&& 0 <= side_rank(next, vertex.index as int) < first_uses(next).len()
            &&& handle == handle_at::<Edge>(
                old(target)@.id,
                2 * source@.edges.len() + side_rank(next, vertex.index as int),
            )
        }),
{
    let ghost v = vertex.index as int;
    let ghost last = SideUse { vertex: v, edge };
    let ghost next = uses.push(last);
    let ghost id = target@.id;
    let ghost start = target@;
    let lower = match bottom.vertices.get(&vertex.index) {
        Some(copy) => *copy,
        None => vstd::pervasive::unreached(),
    };
    assert(lower == handle_at::<Vertex<3>>(id, 2 * v));
    assert(lower.index == (2 * v) as usize);
    let found: Option<Handle<Edge>> = match cache.get(&lower.index) {
        Some(existing) => Some(*existing),
        None => None,
    };
    proof {
        lemma_firsts_grow(uses, last);
        lemma_seen_push(uses, last, v);
        lemma_rank_in_range(next, v);
        lemma_cache_lookup(cache@, source@, id, uses, v);
    }
    match found {
        Some(existing) => {
            proof {
                lemma_cache_hit(cache@, source@, id, uses, last);
            }
            existing
        },
        None => {
            let curve_handle = target.add_curve(curve);
            let upper = match top.vertices.get(&vertex.index) {
                Some(copy) => *copy,
                None => vstd::pervasive::unreached(),
            };
            assert(upper == handle_at::<Vertex<3>>(id, 2 * v + 1));
            let made = stored(
                target.add_edge(Edge { curve: curve_handle, vertices: Some([lower, upper]) }),
            );
            proof {
                lemma_cache_miss(cache@, source@, id, uses, last, made);
                lemma_side_edges_kept(source@, start, target@, first_uses(uses));
                assert(side_edge_swept(source@, target@, first_uses(uses).len() as int, last));
                lemma_side_edges_push(source@, target@, first_uses(uses), last);
            }
            cache.insert(lower.index, made);
            made
        },
    }
}

/// The side edges asked for with one more edge of a cycle are those asked for
/// before, then one at the edge's first vertex and one at its last.
pub proof fn lemma_uses_step(source: ShapeView, k: int, m: int)
    requires
        0 <= m < source.cycles[k].edges@.len(),
    ensures
        ({
            let j = source.cycles[k].edges@[m].index as int;
            let ends = source.edges[j].vertices->Some_0;
            uses_at(source, k, m + 1) == uses_at(source, k, m).push(
                SideUse { vertex: ends[0].index as int, edge: j },
            ).push(SideUse { vertex: ends[1].index as int, edge: j })
        }),
{
    let edges = source.cycles[k].edges@;
    let taken = edges.take(m + 1);
    assert(taken.drop_last() =~= edges.take(m));
    assert(taken.last() == edges[m]);
    let j = edges[m].index as int;
    let ends = source.edges[j].vertices->Some_0;
    let first = SideUse { vertex: ends[0].index as int, edge: j };
    let last = SideUse { vertex: ends[1].index as int, edge: j };
    assert(edge_uses(source, taken) == edge_uses(source, edges.take(m)).push(first).push(last));
    if m == 0 {
        assert(edges.take(0) =~= Seq::<Handle<Edge>>::empty());
        assert(uses_at(source, k, 1) =~= side_uses(source, k).push(first).push(last));
    } else {
        assert(uses_at(source, k, m + 1) =~= uses_at(source, k, m).push(first).push(last));
    }
}

/// The two side edges of an edge: the one at its first vertex and the one at
/// its last.
fn side_edges(
    source: &Shape,
    target: &mut Shape,
    cache: &mut HashMap<usize, Handle<Edge>>,
    bottom: &Relation,
    top: &Relation,
    edge: &Edge,
    Ghost(k): Ghost<int>,
    Ghost(m): Ghost<int>,
) -> (sides: (Handle<Edge>, Handle<Edge>))
    requires
        source.wf(),
        0 <= m < source@.cycles[k].edges@.len(),
        source@.owns_edge(source@.cycles[k].edges@[m]),
        *edge == source@.edges[source@.cycles[k].edges@[m].index as int],
        edge.vertices is Some,
        old(target).wf(),
        old(target)@.vertices.len() == 2 * source@.vertices.len(),
        old(target)@.curves.len() == 2 * source@.edges.len() + first_uses(
            uses_at(source@, k, m),
        ).len(),
        old(target)@.edges.len() == 2 * source@.edges.len() + first_uses(
            uses_at(source@, k, m),
        ).len(),
        relates(bottom.vertices@, old(target)@.id, source@.vertices.len() as int, 0),
        relates(top.vertices@, old(target)@.id, source@.vertices.len() as int, 1),
        cache_holds(old(cache)@, source@, old(target)@.id, uses_at(source@, k, m)),
        side_edges_swept(source@, old(target)@, first_uses(uses_at(source@, k, m))),
    ensures
        final(target).wf(),
        final(target)@.extends(old(target)@),
        final(target)@.surfaces == old(target)@.surfaces,
        final(target)@.cycles == old(target)@.cycles,
        final(target)@.faces == old(target)@.faces,
        ({
            let all = uses_at(source@, k, m + 1);
            let ends = edge.vertices->Some_0;
            let side = 2 * source@.edges.len();
            &&& final(target)@.curves.len() == side + first_uses(all).len()
            &&& final(target)@.edges.len() == side + first_uses(all).len()
            &&& cache_holds(final(cache)@, source@, old(target)@.id, all)
            &&& side_edges_swept(source@, final(target)@, first_uses(all))
            &&& 0 <= side_rank(all, ends[0].index as int) < first_uses(all).len()
            &&& 0 <= side_rank(all, ends[1].index as int) < first_uses(all).len()
            &&& sides.0 == handle_at::<Edge>(
                old(target)@.id,
                side + side_rank(all, ends[0].index as int),
            )
            &&& sides.1 == handle_at::<Edge>(
                old(target)@.id,
                side + side_rank(all, ends[1].index as int),
            )
        }),
{
    let ghost j = source@.cycles[k].edges@[m].index as int;
    let ghost start = target@;
    assert(source@.edge_valid(source@.edges[j]));
    let ends = match edge.vertices {
        Some(ends) => ends,
        None => vstd::pervasive::unreached(),
    };
    let curve = match source.curve(&edge.curve) {
        Some(curve) => curve,
        None => vstd::pervasive::unreached(),
    };
    let ghost uses = uses_at(source@, k, m);
    let ghost first = SideUse { vertex: ends[0].index as int, edge: j };
    let ghost last = SideUse { vertex: ends[1].index as int, edge: j };
    let side_first = side_edge(
        source,
        target,
        cache,
        bottom,
        top,
        ends[0],
        curve,
        Ghost(uses),
        Ghost(j),
    );
    let ghost between = target@;
    let side_last = side_edge(
        source,
        target,
        cache,
        bottom,
        top,
        ends[1],
        curve,
        Ghost(uses.push(first)),
        Ghost(j),
    );
    proof {
        lemma_uses_step(source@, k, m);
        lemma_firsts_grow(uses.push(first), last);
        lemma_seen_push(uses, first, first.vertex);
        assert(target@.extends(start));
    }
    (side_first, side_last)
}

/// Makes the side face over an edge from what it stands on: a surface swept
/// from the curve of the edge's bottom copy, a cycle of the bottom copy, the
/// top copy and the two side edges, and the face.
fn wall_face(
    source: &Shape,
    target: &mut Shape,
    path: &Vector<3>,
    color: [u8; 4],
    lower_edge: Handle<Edge>,
    upper_edge: Handle<Edge>,
    side_first: Handle<Edge>,
    side_last: Handle<Edge>,
    Ghost(k): Ghost<int>,
    Ghost(m): Ghost<int>,
)
    requires
        source@.countable(),
        old(target).wf(),
        0 <= k,
        0 <= m < source@.cycles[k].edges@.len(),
        ({
            let j = source@.cycles[k].edges@[m].index as int;
            let edge = source@.edges[j];
            let ends = edge.vertices->Some_0;
            let all = uses_at(source@, k, m + 1);
            let firsts = first_uses(all);
            let side = 2 * source@.edges.len();
            let rank_first = side_rank(all, ends[0].index as int);
            let rank_last = side_rank(all, ends[1].index as int);
            &&& 0 <= j < source@.edges.len()
            &&& edge.vertices is Some
            &&& old(target)@.curves.len() >= side
            &&& old(target)@.edges.len() >= side
            &&& edge_swept(source@, *path, old(target)@, j, edge)
            &&& lower_edge == handle_at::<Edge>(old(target)@.id, 2 * j)
            &&& upper_edge == handle_at::<Edge>(old(target)@.id, 2 * j + 1)
            &&& 0 <= rank_first < firsts.len()
            &&& 0 <= rank_last < firsts.len()
            &&& side_edge_swept(source@, old(target)@, rank_first, firsts[rank_first])
            &&& side_edge_swept(source@, old(target)@, rank_last, firsts[rank_last])
            &&& side_first == handle_at::<Edge>(old(target)@.id, side + rank_first)
            &&& side_last == handle_at::<Edge>(old(target)@.id, side + rank_last)
        }),
        old(target)@.surfaces.len() == 2 * source@.faces.len() + walls_before(source@, k) + m,
        old(target)@.cycles.len() == 2 * source@.cycles.len() + walls_before(source@, k) + m,
        old(target)@.faces.len() == 2 * source@.faces.len() + side_faces_before(source@, k) + m,
    ensures
        final(target).wf(),
        final(target)@.extends(old(target)@),
        final(target)@.curves == old(target)@.curves,
        final(target)@.edges == old(target)@.edges,
        final(target)@.surfaces.len() == old(target)@.surfaces.len() + 1,
        final(target)@.cycles.len() == old(target)@.cycles.len() + 1,
        final(target)@.faces.len() == old(target)@.faces.len() + 1,
        wall_swept(source@, *path, color, final(target)@, k, m, source@.cycles[k].edges@[m]),
{
    let ghost start = target@;
    let ghost j = source@.cycles[k].edges@[m].index as int;
    let ghost all = uses_at(source@, k, m + 1);
    let ghost firsts = first_uses(all);
    let lower = match target.edge(&lower_edge) {
        Some(lower) => lower,
        None => vstd::pervasive::unreached(),
    };
    let lower_curve = match target.curve(&lower.curve) {
        Some(curve) => curve,
        None => vstd::pervasive::unreached(),
    };
    let surface = target.add_surface(
        Surface::SweptCurve(SweptCurve { curve: lower_curve, path: *path }),
    );
    let edges: Vec<Handle<Edge>> = vec![lower_edge, upper_edge, side_first, side_last];
    proof {
        let held = target@;
        assert(edge_ends(source@.edges[j]) is Some);
        assert(edge_ends(held.edges[2 * j]) is Some);
        assert(edge_ends(held.edges[2 * j + 1]) is Some);
        assert(held.owns_edge(edges@[0]));
        assert(held.owns_edge(edges@[1]));
        assert(held.owns_edge(edges@[2]));
        assert(held.owns_edge(edges@[3]));
        assert(!held.edges[edges@[0].index as int].continuous());
        assert(!held.edges[edges@[1].index as int].continuous());
        assert(!held.edges[edges@[2].index as int].continuous());
        assert(!held.edges[edges@[3].index as int].continuous());
    }
    let ghost edge_handles = edges@;
    let side_cycle = stored(target.add_cycle(Cycle { edges }));
    let cycles: Vec<Handle<Cycle>> = vec![side_cycle];
    let ghost cycle_handles = cycles@;
    assert(target@.owns_cycle(cycles@[0]));
    let face = stored(target.add_face(Face::Face { surface, cycles, color }));
    proof {
        reveal(wall_swept);
        let done = target@;
        let ends = source@.edges[j].vertices->Some_0;
        let q = walls_before(source@, k) + m;
        let side = 2 * source@.edges.len();
        let surface_place = 2 * source@.faces.len() + q;
        let cycle_place = 2 * source@.cycles.len() + q;
        let face_place = 2 * source@.faces.len() + side_faces_before(source@, k) + m;
        assert(lower_curve == source@.curves[source@.edges[j].curve.index as int]);
        assert(done.surfaces[surface_place] == Surface::SweptCurve(
            SweptCurve { curve: lower_curve, path: *path },
        ));
        assert(done.cycles[cycle_place].edges@ == edge_handles);
        assert(edge_handles =~= seq![
            handle_at::<Edge>(done.id, 2 * j),
            handle_at::<Edge>(done.id, 2 * j + 1),
            handle_at::<Edge>(done.id, side + side_rank(all, ends[0].index as int)),
            handle_at::<Edge>(done.id, side + side_rank(all, ends[1].index as int)),
        ]);
        assert(cycle_handles =~= seq![handle_at::<Cycle>(done.id, cycle_place)]);
        assert(done.faces[face_place]->cycles@ == cycle_handles);
    }
}

/// Makes the side face over one edge of a cycle that is not a single
/// continuous edge.
fn side_face(
    source: &Shape,
    target: &mut Shape,
    cache: &mut HashMap<usize, Handle<Edge>>,
    bottom: &Relation,
    top: &Relation,
    path: &Vector<3>,
    color: [u8; 4],
    edge_handle: Handle<Edge>,
    Ghost(tolerance): Ghost<fj_math::Scalar>,
    Ghost(k): Ghost<int>,
    Ghost(m): Ghost<int>,
)
    requires
        source.wf(),
        old(target).wf(),
        old(target)@.vertices.len() == 2 * source@.vertices.len(),
        edges_swept(source@, *path, old(target)@),
        relates(bottom.vertices@, old(target)@.id, source@.vertices.len() as int, 0),
        relates(top.vertices@, old(target)@.id, source@.vertices.len() as int, 1),
        relates(bottom.edges@, old(target)@.id, source@.edges.len() as int, 0),
        relates(top.edges@, old(target)@.id, source@.edges.len() as int, 1),
        0 <= k < source@.cycles.len(),
        !cycle_continuous(source@, source@.cycles[k]),
        0 <= m < source@.cycles[k].edges@.len(),
        edge_handle == source@.cycles[k].edges@[m],
        sides_swept(source@, *path, tolerance, color, old(target)@, k, m),
        cache_holds(old(cache)@, source@, old(target)@.id, uses_at(source@, k, m)),
    ensures
        final(target).wf(),
        final(target)@.extends(old(target)@),
        sides_swept(source@, *path, tolerance, color, final(target)@, k, m + 1),
        cache_holds(final(cache)@, source@, old(target)@.id, uses_at(source@, k, m + 1)),
{
    let ghost start = target@;
    let ghost cycle = source@.cycles[k];
    let ghost j = edge_handle.index as int;
    proof {
        assert(source@.cycle_valid(cycle));
        assert(source@.owns_edge(cycle.edges@[m]));
        if cycle.edges@.len() >= 2 {
            assert(!source@.edges[cycle.edges@[m].index as int].continuous());
        } else {
            assert(m == 0);
        }
    }
    let edge = match source.edge(&edge_handle) {
        Some(edge) => edge,
        None => vstd::pervasive::unreached(),
    };
    let sides = side_edges(source, target, cache, bottom, top, &edge, Ghost(k), Ghost(m));
    let ghost sided = target@;
    let lower_edge = match bottom.edges.get(&edge_handle.index) {
        Some(copy) => *copy,
        None => vstd::pervasive::unreached(),
    };
    let upper_edge = match top.edges.get(&edge_handle.index) {
        Some(copy) => *copy,
        None => vstd::pervasive::unreached(),
    };
    proof {
        let all = uses_at(source@, k, m + 1);
        let ends = edge.vertices->Some_0;
        lemma_edges_kept(source@, *path, start, sided);
        assert(edge_swept(source@, *path, sided, j, source@.edges[j]));
        lemma_side_edge_at(source@, sided, first_uses(all), side_rank(all, ends[0].index as int));
        lemma_side_edge_at(source@, sided, first_uses(all), side_rank(all, ends[1].index as int));
        lemma_walls_kept(source@, *path, tolerance, color, start, sided, k, m);
    }
    wall_face(
        source,
        target,
        path,
        color,
        lower_edge,
        upper_edge,
        sides.0,
        sides.1,
        Ghost(k),
        Ghost(m),
    );
    proof {
        let done = target@;
        let all = uses_at(source@, k, m + 1);
        lemma_side_edges_kept(source@, sided, done, first_uses(all));
        lemma_walls_kept(source@, *path, tolerance, color, sided, done, k, m);
        lemma_wall_added(source@, *path, tolerance, color, done, k, m);
        assert(done.extends(start));
    }
}

/// The side faces of a cycle are all there once the side face over its last
/// edge is.
pub proof fn lemma_cycle_done(
    source: ShapeView,
    path: Vector<3>,
    tolerance: fj_math::Scalar,
    color: [u8; 4],
    target: ShapeView,
    k: int,
)
    requires
        0 <= k < source.cycles.len(),
        !cycle_continuous(source, source.cycles[k]),
        sides_swept(
            source,
            path,
            tolerance,
            color,
            target,
            k,
            source.cycles[k].edges@.len() as int,
        ),
    ensures
        sides_swept(source, path, tolerance, color, target, k + 1, 0),
        uses_at(source, k + 1, 0) == uses_at(source, k, source.cycles[k].edges@.len() as int),
{
    let cycle = source.cycles[k];
    let count = cycle.edges@.len() as int;
    assert(cycle.edges@.take(count) =~= cycle.edges@);
    if count == 0 {
        assert(edge_uses(source, cycle.edges@) =~= Seq::<SideUse>::empty());
        assert(side_uses(source, k + 1) =~= side_uses(source, k));
    }
    assert(side_uses(source, k + 1) == uses_at(source, k, count));
    assert(walls_before(source, k + 1) == walls_before(source, k) + count);
    assert(side_faces_before(source, k + 1) == side_faces_before(source, k) + count);
    lemma_walls_whole(source, path, tolerance, color, target, k);
    lemma_walls_next(source, path, tolerance, color, target, k, count);
}

/// Makes the side of a cycle that is a single continuous edge: the wall of
/// triangles over the cycle's approximation, as one face.
fn continuous_side(
    source: &Shape,
    target: &mut Shape,
    path: &Vector<3>,
    tolerance: fj_math::Scalar,
    color: [u8; 4],
    cycle: &Cycle,
    Ghost(k): Ghost<int>,
)
    requires
        sweepable(source@),
        path.bounded(),
        old(target).wf(),
        0 <= k < source@.cycles.len(),
        *cycle == source@.cycles[k],
        cycle_continuous(source@, *cycle),
        sides_swept(source@, *path, tolerance, color, old(target)@, k, 0),
    ensures
        final(target).wf(),
        final(target)@.extends(old(target)@),
        sides_swept(source@, *path, tolerance, color, final(target)@, k + 1, 0),
        uses_at(source@, k + 1, 0) == uses_at(source@, k, 0),
{
    let ghost start = target@;
    proof {
        assert(source@.cycle_valid(*cycle));
        lemma_chain_bounded(source@, cycle.edges@, tolerance);
        lemma_without_repeats_bounded(chain_points(source@, cycle.edges@, tolerance));
    }
    let points = approximate_cycle(source, cycle, tolerance);
    let triangles = wall_triangles(&points, path, color);
    let face = stored(target.add_face(Face::Triangles(triangles)));
    proof {
        let done = target@;
        lemma_side_edges_kept(source@, start, done, first_uses(uses_at(source@, k, 0)));
        lemma_walls_kept(source@, *path, tolerance, color, start, done, k, 0);
        assert(side_uses(source@, k + 1) == side_uses(source@, k));
        assert(walls_before(source@, k + 1) == walls_before(source@, k));
        assert(side_faces_before(source@, k + 1) == side_faces_before(source@, k) + 1);
        assert(cycle_sides_swept(
            source@,
            *path,
            tolerance,
            color,
            done,
            k,
            cycle.edges@.len() as int,
            source@.cycles[k],
        ));
        lemma_walls_next(source@, *path, tolerance, color, done, k, 0);
    }
}

/// Makes the sides of all cycles, behind the copies.
///
/// A cycle that is a single continuous edge gets a wall of triangles. Any
/// other cycle gets a side face over each of its edges, between the side
/// edges at the edge's two vertices. A side edge is made when it is first
/// asked for, and is shared from then on by all that ask for it.
pub(crate) fn sweep_sides(
    source: &Shape,
    target: &mut Shape,
    path: &Vector<3>,
    tolerance: fj_math::Scalar,
    color: [u8; 4],
    bottom: &Relation,
    top: &Relation,
)
    requires
        sweepable(source@),
        path.bounded(),
        old(target).wf(),
        edges_swept(source@, *path, old(target)@),
        relates(bottom.vertices@, old(target)@.id, source@.vertices.len() as int, 0),
        relates(top.vertices@, old(target)@.id, source@.vertices.len() as int, 1),
        relates(bottom.edges@, old(target)@.id, source@.edges.len() as int, 0),
        relates(top.edges@, old(target)@.id, source@.edges.len() as int, 1),
        old(target)@.vertices.len() == 2 * source@.vertices.len(),
        old(target)@.curves.len() == 2 * source@.edges.len(),
        old(target)@.edges.len() == 2 * source@.edges.len(),
        old(target)@.surfaces.len() == 2 * source@.faces.len(),
        old(target)@.cycles.len() == 2 * source@.cycles.len(),
        old(target)@.faces.len() == 2 * source@.faces.len(),
    ensures
        final(target).wf(),
        final(target)@.extends(old(target)@),
        sides_swept(
            source@,
            *path,
            tolerance,
            color,
            final(target)@,
            source@.cycles.len() as int,
            0,
        ),
{
    let ghost start = target@;
    let mut cache: HashMap<usize, Handle<Edge>> = HashMap::new();
    let handles = source.cycles();
    let mut k: usize = 0;
    proof {
        assert(uses_at(source@, 0, 0) =~= Seq::<SideUse>::empty());
        assert(first_uses(uses_at(source@, 0, 0)) =~= Seq::<SideUse>::empty());
        lemma_cache_empty(source@, target@.id);
        lemma_side_edges_none(source@, target@);
        lemma_walls_none(source@, *path, tolerance, color, target@);
    }
    while k < handles.len()
        invariant
            0 <= k <= handles.len(),
            handles@ == Seq::new(source@.cycles.len(), |i: int| handle_at::<Cycle>(source@.id, i)),
            sweepable(source@),
            path.bounded(),
            target.wf(),
            target@.vertices.len() == 2 * source@.vertices.len(),
            edges_swept(source@, *path, target@),
            relates(bottom.vertices@, target@.id, source@.vertices.len() as int, 0),
            relates(top.vertices@, target@.id, source@.vertices.len() as int, 1),
            relates(bottom.edges@, target@.id, source@.edges.len() as int, 0),
            relates(top.edges@, target@.id, source@.edges.len() as int, 1),
            target@.extends(start),
            sides_swept(source@, *path, tolerance, color, target@, k as int, 0),
            cache_holds(cache@, source@, target@.id, uses_at(source@, k as int, 0)),
        decreases handles.len() - k,
    {
        let handle: Handle<Cycle> = handles[k];
        let cycle = match source.cycle(&handle) {
            Some(cycle) => cycle,
            None => vstd::pervasive::unreached(),
        };
        assert(*cycle == source@.cycles[k as int]);
        assert(source@.cycle_valid(*cycle));
        let ghost before = target@;
        let mut continuous: bool = false;
        if cycle.edges.len() == 1 {
            assert(source@.owns_edge(cycle.edges@[0]));
            let only = match source.edge(&cycle.edges[0]) {
                Some(edge) => edge,
                None => vstd::pervasive::unreached(),
            };
            continuous = only.is_continuous();
        }
        assert(continuous == cycle_continuous(source@, *cycle));
        if continuous {
            continuous_side(source, target, path, tolerance, color, cycle, Ghost(k as int));
        } else {
            let mut m: usize = 0;
            while m < cycle.edges.len()
                invariant
                    0 <= m <= cycle.edges.len(),
                    0 <= k < source@.cycles.len(),
                    *cycle == source@.cycles[k as int],
                    !cycle_continuous(source@, *cycle),
                    source.wf(),
                    target.wf(),
                    target@.vertices.len() == 2 * source@.vertices.len(),
                    edges_swept(source@, *path, target@),
                    relates(bottom.vertices@, target@.id, source@.vertices.len() as int, 0),
                    relates(top.vertices@, target@.id, source@.vertices.len() as int, 1),
                    relates(bottom.edges@, target@.id, source@.edges.len() as int, 0),
                    relates(top.edges@, target@.id, source@.edges.len() as int, 1),
                    target@.extends(before),
                    sides_swept(source@, *path, tolerance, color, target@, k as int, m as int),
                    cache_holds(cache@, source@, target@.id, uses_at(source@, k as int, m as int)),
                decreases cycle.edges.len() - m,
            {
                let ghost inner = target@;
                side_face(
                    source,
                    target,
                    &mut cache,
                    bottom,
                    top,
                    path,
                    color,
                    cycle.edges[m],
                    Ghost(tolerance),
                    Ghost(k as int),
                    Ghost(m as int),
                );
                proof {
                    lemma_edges_kept(source@, *path, inner, target@);
                }
                m += 1;
            }
            proof {
                lemma_cycle_done(source@, *path, tolerance, color, target@, k as int);
            }
        }
        proof {
            lemma_edges_kept(source@, *path, before, target@);
        }
        k += 1;
    }
}

} // verus!
