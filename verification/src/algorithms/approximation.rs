//! Approximation of a cycle by a closed chain of points.

use vstd::prelude::*;

use crate::math::Point;
use crate::shape::{Handle, Shape, ShapeView};
use crate::topology::{Cycle, Edge};

verus! {

/// The points that approximate one edge of a shape.
///
/// An edge between two vertices runs from the first vertex over the samples of
/// its curve to the second vertex: the vertices themselves are taken, not
/// samples near them. A continuous edge has the samples of its curve only, and
/// its first point once more at the end, which closes the loop.
pub open spec fn edge_points(shape: ShapeView, edge: Edge, tolerance: fj_math::Scalar) -> Seq<
    Point<3>,
> {
    let samples = shape.curves[edge.curve.index as int].samples(tolerance);
    match edge.vertices {
        Some(vertices) => seq![shape.vertices[vertices[0].index as int].0.canonical] + samples
            + seq![shape.vertices[vertices[1].index as int].0.canonical],
        None => if samples.len() > 0 {
            samples.push(samples[0])
        } else {
            samples
        },
    }
}

/// The points of the edges, one edge after the other.
pub open spec fn chain_points(
    shape: ShapeView,
    edges: Seq<Handle<Edge>>,
    tolerance: fj_math::Scalar,
) -> Seq<Point<3>>
    decreases edges.len(),
{
    if edges.len() == 0 {
        Seq::empty()
    } else {
        chain_points(shape, edges.drop_last(), tolerance) + edge_points(
            shape,
            shape.edges[edges.last().index as int],
            tolerance,
        )
    }
}

/// The points without those that repeat the point before them.
pub open spec fn without_repeats(points: Seq<Point<3>>) -> Seq<Point<3>>
    decreases points.len(),
{
    if points.len() == 0 {
        Seq::empty()
    } else {
        let front = without_repeats(points.drop_last());
        if front.len() > 0 && front.last().same(&points.last()) {
            front
        } else {
            front.push(points.last())
        }
    }
}

/// The approximation of a cycle: the points of its edges in order, each point
/// once where one edge ends and the next begins.
pub open spec fn approximation(
    shape: ShapeView,
    edges: Seq<Handle<Edge>>,
    tolerance: fj_math::Scalar,
) -> Seq<Point<3>> {
    without_repeats(chain_points(shape, edges, tolerance))
}

/// Whether every one of the points is bounded.
pub open spec fn points_bounded(points: Seq<Point<3>>) -> bool {
    forall|i: int| 0 <= i < points.len() ==> (#[trigger] points[i]).bounded()
}

/// Approximates one edge.
fn approximate_edge(shape: &Shape, edge: &Edge, tolerance: fj_math::Scalar) -> (r: Vec<Point<3>>)
    requires
        shape@.edge_valid(*edge),
    ensures
        r@ == edge_points(shape@, *edge, tolerance),
{
    let curve = match shape.curve(&edge.curve) {
        Some(curve) => curve,
        None => vstd::pervasive::unreached(),
    };
    let samples: Vec<Point<3>> = curve.approx(tolerance);
    let mut points: Vec<Point<3>> = Vec::new();
    match edge.vertices {
        Some(vertices) => {
            let first = match shape.vertex(&vertices[0]) {
                Some(vertex) => vertex,
                None => vstd::pervasive::unreached(),
            };
            let last = match shape.vertex(&vertices[1]) {
                Some(vertex) => vertex,
                None => vstd::pervasive::unreached(),
            };
            points.push(first.point().canonical());
            let mut i: usize = 0;
            while i < samples.len()
                invariant
                    0 <= i <= samples.len(),
                    points@ == seq![first.0.canonical] + samples@.take(i as int),
                decreases samples.len() - i,
            {
                points.push(samples[i]);
                assert(points@ =~= seq![first.0.canonical] + samples@.take(i + 1));
                i += 1;
            }
            assert(samples@.take(samples@.len() as int) =~= samples@);
            points.push(last.point().canonical());
            assert(points@ =~= seq![first.0.canonical] + samples@ + seq![last.0.canonical]);
        },
        None => {
            let mut i: usize = 0;
            while i < samples.len()
                invariant
                    0 <= i <= samples.len(),
                    points@ == samples@.take(i as int),
                decreases samples.len() - i,
            {
                points.push(samples[i]);
                assert(points@ =~= samples@.take(i + 1));
                i += 1;
            }
            assert(samples@.take(samples@.len() as int) =~= samples@);
            if samples.len() > 0 {
                points.push(samples[0]);
            }
        },
    }
    points
}

/// Drops the points that repeat the point before them.
fn drop_repeats(points: &Vec<Point<3>>) -> (r: Vec<Point<3>>)
    ensures
        r@ == without_repeats(points@),
{
    let mut kept: Vec<Point<3>> = Vec::new();
    let mut i: usize = 0;
    assert(points@.take(0) =~= Seq::<Point<3>>::empty());
    while i < points.len()
        invariant
            0 <= i <= points.len(),
            kept@ == without_repeats(points@.take(i as int)),
        decreases points.len() - i,
    {
        let point: Point<3> = points[i];
        let ghost front = points@.take(i as int);
        let ghost next = points@.take(i + 1);
        assert(next.drop_last() =~= front);
        assert(next.last() == point);
        let repeats: bool = kept.len() > 0 && kept[kept.len() - 1].same_as(&point);
        if !repeats {
            kept.push(point);
        }
        i += 1;
    }
    assert(points@.take(points@.len() as int) =~= points@);
    kept
}

/// Approximates a cycle of a shape by a chain of points that stays within the
/// tolerance of the cycle's curves.
///
/// The chain is closed: where the cycle's edges form a loop, the last point is
/// the first. The same cycle and tolerance give the same chain every time.
pub fn approximate_cycle(shape: &Shape, cycle: &Cycle, tolerance: fj_math::Scalar) -> (r: Vec<
    Point<3>,
>)
    requires
        shape.wf(),
        shape@.owns_edges(cycle.edges@),
    ensures
        r@ == approximation(shape@, cycle.edges@, tolerance),
{
    let mut points: Vec<Point<3>> = Vec::new();
    let mut i: usize = 0;
    assert(cycle.edges@.take(0) =~= Seq::<Handle<Edge>>::empty());
    while i < cycle.edges.len()
        invariant
            0 <= i <= cycle.edges.len(),
            shape.wf(),
            shape@.owns_edges(cycle.edges@),
            points@ == chain_points(shape@, cycle.edges@.take(i as int), tolerance),
        decreases cycle.edges.len() - i,
    {
        let handle: Handle<Edge> = cycle.edges[i];
        assert(shape@.owns_edge(cycle.edges@[i as int]));
        let edge = match shape.edge(&handle) {
            Some(edge) => edge,
            None => vstd::pervasive::unreached(),
        };
        assert(shape@.edge_valid(shape@.edges[handle.index as int]));
        let mut edge_points: Vec<Point<3>> = approximate_edge(shape, &edge, tolerance);
        let ghost before = points@;
        points.append(&mut edge_points);
        let ghost next = cycle.edges@.take(i + 1);
        assert(next.drop_last() =~= cycle.edges@.take(i as int));
        assert(next.last() == handle);
        i += 1;
    }
    assert(cycle.edges@.take(cycle.edges@.len() as int) =~= cycle.edges@);
    drop_repeats(&points)
}

/// The points of a chain over bounded vertices are bounded: each of them is a
/// vertex, since lines have no samples of their own.
pub proof fn lemma_chain_bounded(
    shape: ShapeView,
    edges: Seq<Handle<Edge>>,
    tolerance: fj_math::Scalar,
)
    requires
        shape.wf(),
        shape.owns_edges(edges),
        forall|i: int|
            0 <= i < shape.vertices.len() ==> (#[trigger] shape.vertices[i]).0.canonical.bounded(),
    ensures
        points_bounded(chain_points(shape, edges, tolerance)),
    decreases edges.len(),
{
    if edges.len() > 0 {
        let front = edges.drop_last();
        assert forall|i: int| 0 <= i < front.len() implies shape.owns_edge(#[trigger] front[i]) by {
            assert(front[i] == edges[i]);
        }
        lemma_chain_bounded(shape, front, tolerance);
        assert(shape.owns_edge(edges[edges.len() - 1]));
        let edge = shape.edges[edges.last().index as int];
        assert(shape.edge_valid(edge));
        let points = edge_points(shape, edge, tolerance);
        assert(points_bounded(points)) by {
            match edge.vertices {
                Some(vertices) => {
                    let first = shape.vertices[vertices[0].index as int];
                    let last = shape.vertices[vertices[1].index as int];
                    assert(first.0.canonical.bounded());
                    assert(last.0.canonical.bounded());
                    assert(points =~= seq![first.0.canonical, last.0.canonical]);
                },
                None => {},
            }
        }
    }
}

/// Dropping repeated points keeps the others as they are.
pub proof fn lemma_without_repeats_bounded(points: Seq<Point<3>>)
    requires
        points_bounded(points),
    ensures
        points_bounded(without_repeats(points)),
    decreases points.len(),
{
    if points.len() > 0 {
        let front = points.drop_last();
        assert forall|i: int| 0 <= i < front.len() implies (#[trigger] front[i]).bounded() by {
            assert(front[i] == points[i]);
        }
        lemma_without_repeats_bounded(front);
        assert(points[points.len() - 1].bounded());
    }
}

/// Whether the edge at place `m` has vertices and ends at the vertex at which
/// the next edge begins. The edge after the last is the first.
pub open spec fn linked(source: ShapeView, edges: Seq<Handle<Edge>>, m: int) -> bool {
    &&& !source.edges[edges[m].index as int].continuous()
    &&& source.edges[edges[m].index as int].vertices->Some_0[1]
        == source.edges[edges[(m + 1) % (edges.len() as int)].index as int].vertices->Some_0[0]
}

/// Whether the edges, each with vertices, form a closed chain: each ends at
/// the vertex at which the next begins, and the last ends at the vertex at
/// which the first begins.
pub open spec fn closed_chain(source: ShapeView, edges: Seq<Handle<Edge>>) -> bool {
    forall|m: int| 0 <= m < edges.len() ==> #[trigger] linked(source, edges, m)
}

/// A chain of edges with vertices begins at the first vertex of its first
/// edge and ends at the last vertex of its last edge.
pub proof fn lemma_chain_ends(
    shape: ShapeView,
    edges: Seq<Handle<Edge>>,
    tolerance: fj_math::Scalar,
)
    requires
        edges.len() >= 1,
        forall|m: int|
            0 <= m < edges.len() ==> !shape.edges[(#[trigger] edges[m]).index as int].continuous(),
    ensures
        chain_points(shape, edges, tolerance).len() >= 2,
        chain_points(shape, edges, tolerance)[0]
            == shape.vertices[shape.edges[edges[0].index as int].vertices->Some_0[0].index as int].0.canonical,
        chain_points(shape, edges, tolerance).last()
            == shape.vertices[shape.edges[edges.last().index as int].vertices->Some_0[1].index as int].0.canonical,
    decreases edges.len(),
{
    let front = edges.drop_last();
    let edge = shape.edges[edges.last().index as int];
    assert(!shape.edges[edges[edges.len() - 1].index as int].continuous());
    let points = edge_points(shape, edge, tolerance);
    let ends = edge.vertices->Some_0;
    assert(points =~= seq![
        shape.vertices[ends[0].index as int].0.canonical,
        shape.vertices[ends[1].index as int].0.canonical,
    ]);
    if front.len() >= 1 {
        assert forall|m: int| 0 <= m < front.len() implies !shape.edges[(
        #[trigger] front[m]).index as int].continuous() by {
            assert(front[m] == edges[m]);
        }
        lemma_chain_ends(shape, front, tolerance);
        assert(front[0] == edges[0]);
    } else {
        assert(chain_points(shape, front, tolerance) =~= Seq::<Point<3>>::empty());
    }
}

/// Dropping repeated points keeps the first point, and ends at a point that
/// holds the numbers of the last.
pub proof fn lemma_without_repeats_ends(points: Seq<Point<3>>)
    requires
        points.len() >= 1,
    ensures
        without_repeats(points).len() >= 1,
        without_repeats(points)[0] == points[0],
        without_repeats(points).last().same(&points.last()),
    decreases points.len(),
{
    let front = points.drop_last();
    if front.len() >= 1 {
        lemma_without_repeats_ends(front);
        assert(front[0] == points[0]);
    } else {
        assert(without_repeats(front) =~= Seq::<Point<3>>::empty());
    }
}

/// The approximation of a cycle whose edges form a closed chain is closed:
/// it ends at the point at which it begins.
pub proof fn lemma_approximation_closed(
    shape: ShapeView,
    edges: Seq<Handle<Edge>>,
    tolerance: fj_math::Scalar,
)
    requires
        edges.len() >= 1,
        closed_chain(shape, edges),
    ensures
        approximation(shape, edges, tolerance).len() >= 1,
        approximation(shape, edges, tolerance).last().same(
            &approximation(shape, edges, tolerance)[0],
        ),
{
    let n = edges.len() as int;
    assert forall|m: int| 0 <= m < n implies !shape.edges[(
    #[trigger] edges[m]).index as int].continuous() by {
        assert(linked(shape, edges, m));
    }
    lemma_chain_ends(shape, edges, tolerance);
    lemma_without_repeats_ends(chain_points(shape, edges, tolerance));
    assert(linked(shape, edges, n - 1));
    assert((n - 1 + 1) % n == 0) by (nonlinear_arith)
        requires
            n >= 1,
    ;
}

/// The chain of a cycle's points does not depend on the tolerance: lines need
/// no samples of their own.
pub proof fn lemma_chain_ignores_tolerance(
    shape: ShapeView,
    edges: Seq<Handle<Edge>>,
    one: fj_math::Scalar,
    other: fj_math::Scalar,
)
    ensures
        chain_points(shape, edges, one) == chain_points(shape, edges, other),
    decreases edges.len(),
{
    if edges.len() > 0 {
        lemma_chain_ignores_tolerance(shape, edges.drop_last(), one, other);
    }
}

/// A finer tolerance never gives fewer points.
///
/// This holds of any two tolerances, whichever is finer: the approximation of
/// a cycle whose curves are lines is the same for both.
pub proof fn lemma_finer_tolerance_keeps_points(
    shape: ShapeView,
    edges: Seq<Handle<Edge>>,
    coarse: fj_math::Scalar,
    fine: fj_math::Scalar,
)
    ensures
        approximation(shape, edges, fine).len() >= approximation(shape, edges, coarse).len(),
{
    lemma_chain_ignores_tolerance(shape, edges, fine, coarse);
}

} // verus!
