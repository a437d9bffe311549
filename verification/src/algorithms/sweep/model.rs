//! What a swept shape holds, stated over the shape it was swept from.
//!
//! The copies of the source's objects come first. The source's object at
//! place `i` has its bottom copy at place `2 i` and its top copy at place
//! `2 i + 1`. What the sides need is added behind them.

use vstd::prelude::*;

use crate::algorithms::approximation::approximation;
use crate::algorithms::sweep::relation::edge_ends;
use crate::geometry::{Curve, Surface, SweptCurve};
use crate::math::transform::{transformed_point_bits, translation_entries};
use crate::math::vector::translated_bits;
use crate::math::{Point, Vector};
use crate::shape::{handle_at, Handle, ShapeView};
use crate::topology::{Cycle, Edge, Face, Triangle, Vertex};

verus! {

/// Whether a shape can be swept: it is well formed, every face is bounded by
/// cycles, and the vertices, the curves of the edges and the surfaces of the
/// faces are bounded.
pub open spec fn sweepable(source: ShapeView) -> bool {
    &&& source.wf()
    &&& forall|i: int|
        0 <= i < source.vertices.len() ==> (#[trigger] source.vertices[i]).0.canonical.bounded()
    &&& forall|j: int|
        0 <= j < source.edges.len() ==> source.curves[(
        #[trigger] source.edges[j]).curve.index as int].bounded()
    &&& forall|f: int|
        0 <= f < source.faces.len() ==> (#[trigger] source.faces[f]) is Face
            && source.surfaces[source.faces[f]->surface.index as int].bounded()
}

/// Whether `top` is the point that the translation along the path makes of
/// `point`.
pub open spec fn lifted(point: Point<3>, path: Vector<3>, top: Point<3>) -> bool {
    top@ == transformed_point_bits(translation_entries(path@), point@)
}

/// Whether `top` is the vertex at the place of `vertex` plus the path.
pub open spec fn raised(vertex: Vertex<3>, path: Vector<3>, top: Vertex<3>) -> bool {
    &&& top.0.native == top.0.canonical
    &&& top.0.canonical@ == translated_bits(vertex.0.canonical@, path@)
}

/// The handles of the copies of an edge's vertices: bottom copies for offset
/// zero, top copies for offset one.
pub open spec fn copied_ends(
    target: u64,
    ends: Option<(Handle<Vertex<3>>, Handle<Vertex<3>>)>,
    offset: int,
) -> Option<(Handle<Vertex<3>>, Handle<Vertex<3>>)> {
    match ends {
        Some((first, last)) => Some(
            (
                handle_at(target, 2 * first.index + offset),
                handle_at(target, 2 * last.index + offset),
            ),
        ),
        None => None,
    }
}

/// The handles of the copies of edges, in their order.
pub open spec fn copied_edges(target: u64, edges: Seq<Handle<Edge>>, offset: int) -> Seq<
    Handle<Edge>,
> {
    Seq::new(edges.len(), |i: int| handle_at(target, 2 * edges[i].index + offset))
}

/// The handles of the copies of cycles, in their order.
pub open spec fn copied_cycles(target: u64, cycles: Seq<Handle<Cycle>>, offset: int) -> Seq<
    Handle<Cycle>,
> {
    Seq::new(cycles.len(), |i: int| handle_at(target, 2 * cycles[i].index + offset))
}

/// Whether the face lies on that surface, is bounded by those cycles and has
/// that colour.
pub open spec fn face_is(
    face: Face,
    surface: Handle<Surface>,
    cycles: Seq<Handle<Cycle>>,
    color: [u8; 4],
) -> bool {
    &&& face is Face
    &&& face->surface == surface
    &&& face->cycles@ == cycles
    &&& face->color == color
}

/// Whether the target holds, for each vertex of the source, that vertex and
/// above it the vertex raised by the path, and no other vertex.
pub open spec fn vertices_swept(source: ShapeView, path: Vector<3>, target: ShapeView) -> bool {
    &&& target.vertices.len() == 2 * source.vertices.len()
    &&& forall|i: int|
        0 <= i < source.vertices.len() ==> target.vertices[2 * i] == #[trigger] source.vertices[i]
            && raised(source.vertices[i], path, target.vertices[2 * i + 1])
}

/// Whether the target holds the two copies of the source's edge at place `j`:
/// its curve and the translated curve, and on them edges between the copies of
/// its vertices.
pub open spec fn edge_swept(
    source: ShapeView,
    path: Vector<3>,
    target: ShapeView,
    j: int,
    edge: Edge,
) -> bool {
    let curve = source.curves[edge.curve.index as int];
    &&& target.curves[2 * j] == curve
    &&& target.curves[2 * j + 1].is_image(&curve, translation_entries(path@))
    &&& target.edges[2 * j].curve == handle_at::<Curve>(target.id, 2 * j)
    &&& edge_ends(target.edges[2 * j]) == copied_ends(target.id, edge_ends(edge), 0)
    &&& target.edges[2 * j + 1].curve == handle_at::<Curve>(target.id, 2 * j + 1)
    &&& edge_ends(target.edges[2 * j + 1]) == copied_ends(target.id, edge_ends(edge), 1)
}

/// Whether the target begins with the two copies of each edge of the source.
pub open spec fn edges_swept(source: ShapeView, path: Vector<3>, target: ShapeView) -> bool {
    &&& target.curves.len() >= 2 * source.edges.len()
    &&& target.edges.len() >= 2 * source.edges.len()
    &&& forall|j: int|
        0 <= j < source.edges.len() ==> edge_swept(
            source,
            path,
            target,
            j,
            #[trigger] source.edges[j],
        )
}

/// Whether the target holds the two copies of the source's cycle at place
/// `k`: the copies of its edges, in the same order.
pub open spec fn cycle_swept(target: ShapeView, k: int, cycle: Cycle) -> bool {
    &&& target.cycles[2 * k].edges@ == copied_edges(target.id, cycle.edges@, 0)
    &&& target.cycles[2 * k + 1].edges@ == copied_edges(target.id, cycle.edges@, 1)
}

/// Whether the target begins with the two copies of each cycle of the source.
pub open spec fn cycles_swept(source: ShapeView, target: ShapeView) -> bool {
    &&& target.cycles.len() >= 2 * source.cycles.len()
    &&& forall|k: int|
        0 <= k < source.cycles.len() ==> cycle_swept(target, k, #[trigger] source.cycles[k])
}

/// Whether the target holds the two caps of the source's face at place `f`:
/// its surface and the translated surface, and on them faces bounded by the
/// copies of its cycles, in the given colour.
pub open spec fn face_swept(
    source: ShapeView,
    path: Vector<3>,
    color: [u8; 4],
    target: ShapeView,
    f: int,
    face: Face,
) -> bool {
    let surface = source.surfaces[face->surface.index as int];
    &&& target.surfaces[2 * f] == surface
    &&& target.surfaces[2 * f + 1].is_image(&surface, translation_entries(path@))
    &&& face_is(
        target.faces[2 * f],
        handle_at(target.id, 2 * f),
        copied_cycles(target.id, face->cycles@, 0),
        color,
    )
    &&& face_is(
        target.faces[2 * f + 1],
        handle_at(target.id, 2 * f + 1),
        copied_cycles(target.id, face->cycles@, 1),
        color,
    )
}

/// Whether the target begins with the two caps of each face of the source.
pub open spec fn faces_swept(
    source: ShapeView,
    path: Vector<3>,
    color: [u8; 4],
    target: ShapeView,
) -> bool {
    &&& target.surfaces.len() >= 2 * source.faces.len()
    &&& target.faces.len() >= 2 * source.faces.len()
    &&& forall|f: int|
        0 <= f < source.faces.len() ==> face_swept(
            source,
            path,
            color,
            target,
            f,
            #[trigger] source.faces[f],
        )
}

/// Whether the cycle is a single continuous edge.
pub open spec fn cycle_continuous(source: ShapeView, cycle: Cycle) -> bool {
    cycle.edges@.len() == 1 && source.edges[cycle.edges@[0].index as int].continuous()
}

/// A vertex that a side edge is asked for, and the edge that asks.
pub struct SideUse {
    /// The place of the vertex in the source.
    pub vertex: int,
    /// The place of the edge in the source.
    pub edge: int,
}

/// The side edges that the edges ask for, in order: for each edge one at its
/// first vertex, then one at its last.
pub open spec fn edge_uses(source: ShapeView, edges: Seq<Handle<Edge>>) -> Seq<SideUse>
    decreases edges.len(),
{
    if edges.len() == 0 {
        Seq::empty()
    } else {
        let j = edges.last().index as int;
        let ends = source.edges[j].vertices->Some_0;
        edge_uses(source, edges.drop_last()).push(
            SideUse { vertex: ends[0].index as int, edge: j },
        ).push(SideUse { vertex: ends[1].index as int, edge: j })
    }
}

/// The side edges that the first `count` cycles of the source ask for.
/// A cycle that is a single continuous edge asks for none.
pub open spec fn side_uses(source: ShapeView, count: int) -> Seq<SideUse>
    decreases count,
{
    if count <= 0 {
        Seq::empty()
    } else {
        let cycle = source.cycles[count - 1];
        if cycle_continuous(source, cycle) {
            side_uses(source, count - 1)
        } else {
            side_uses(source, count - 1) + edge_uses(source, cycle.edges@)
        }
    }
}

/// Whether a side edge at the vertex has been asked for.
pub open spec fn seen(uses: Seq<SideUse>, vertex: int) -> bool {
    exists|i: int| 0 <= i < uses.len() && (#[trigger] uses[i]).vertex == vertex
}

/// The uses that were the first at their vertex, in order. Each of them made a
/// side edge; the others took the one that was there.
pub open spec fn first_uses(uses: Seq<SideUse>) -> Seq<SideUse>
    decreases uses.len(),
{
    if uses.len() == 0 {
        Seq::empty()
    } else if seen(uses.drop_last(), uses.last().vertex) {
        first_uses(uses.drop_last())
    } else {
        first_uses(uses.drop_last()).push(uses.last())
    }
}

/// The place, among the side edges, of the side edge at a vertex that has
/// been asked for: the number of side edges that were made before it.
pub open spec fn side_rank(uses: Seq<SideUse>, vertex: int) -> int
    decreases uses.len(),
{
    if uses.len() == 0 {
        0
    } else if seen(uses.drop_last(), vertex) {
        side_rank(uses.drop_last(), vertex)
    } else {
        first_uses(uses.drop_last()).len() as int
    }
}

/// The number of side faces on surfaces that the first `count` cycles make:
/// one for each edge of a cycle that is not a single continuous edge.
pub open spec fn walls_before(source: ShapeView, count: int) -> int
    decreases count,
{
    if count <= 0 {
        0
    } else {
        let cycle = source.cycles[count - 1];
        if cycle_continuous(source, cycle) {
            walls_before(source, count - 1)
        } else {
            walls_before(source, count - 1) + cycle.edges@.len()
        }
    }
}

/// The number of side faces of either kind that the first `count` cycles
/// make: one of triangles for a single continuous edge, else one for each
/// edge.
pub open spec fn side_faces_before(source: ShapeView, count: int) -> int
    decreases count,
{
    if count <= 0 {
        0
    } else {
        let cycle = source.cycles[count - 1];
        if cycle_continuous(source, cycle) {
            side_faces_before(source, count - 1) + 1
        } else {
            side_faces_before(source, count - 1) + cycle.edges@.len()
        }
    }
}

/// The side edges asked for by the first `k` cycles of the source and the first
/// `m` edges of the next.
pub open spec fn uses_at(source: ShapeView, k: int, m: int) -> Seq<SideUse> {
    if m == 0 {
        side_uses(source, k)
    } else {
        side_uses(source, k) + edge_uses(source, source.cycles[k].edges@.take(m))
    }
}

/// Whether the target holds the side edge of rank `r`: a copy of the curve of
/// the edge that first asked for it, and on it an edge from the bottom copy
/// of the vertex to its top copy.
pub open spec fn side_edge_swept(source: ShapeView, target: ShapeView, r: int, first: SideUse) -> bool {
    let place = 2 * source.edges.len() + r;
    &&& place < target.curves.len()
    &&& place < target.edges.len()
    &&& target.curves[place] == source.curves[source.edges[first.edge].curve.index as int]
    &&& target.edges[place].curve == handle_at::<Curve>(target.id, place)
    &&& edge_ends(target.edges[place]) == Some(
        (
            handle_at::<Vertex<3>>(target.id, 2 * first.vertex),
            handle_at::<Vertex<3>>(target.id, 2 * first.vertex + 1),
        ),
    )
}

/// Whether the target holds the side edges that the uses made, in the order
/// in which they were made.
#[verifier::opaque]
pub open spec fn side_edges_swept(source: ShapeView, target: ShapeView, firsts: Seq<SideUse>) -> bool {
    forall|r: int|
        0 <= r < firsts.len() ==> side_edge_swept(source, target, r, #[trigger] firsts[r])
}

/// The number of triangles in the wall over a chain of that many points: two
/// for each step from one point to the next.
pub open spec fn wall_count(points: nat) -> nat {
    if points == 0 {
        0
    } else {
        (2 * (points - 1)) as nat
    }
}

/// Whether the two triangles cover the quad over the step from `a` to `b`:
/// the first has `a`, `b` and `b` lifted, the second `a`, `b` lifted and `a`
/// lifted.
pub open spec fn quad_swept(
    a: Point<3>,
    b: Point<3>,
    path: Vector<3>,
    color: [u8; 4],
    first: Triangle<3>,
    second: Triangle<3>,
) -> bool {
    &&& first.points[0] == a
    &&& first.points[1] == b
    &&& lifted(b, path, first.points[2])
    &&& first.color == color
    &&& second.points[0] == a
    &&& second.points[1] == first.points[2]
    &&& lifted(a, path, second.points[2])
    &&& second.color == color
}

/// Whether the triangles are the wall over the chain of points: two triangles
/// for each step of the chain, in the order of the steps.
pub open spec fn is_wall(
    triangles: Seq<Triangle<3>>,
    points: Seq<Point<3>>,
    path: Vector<3>,
    color: [u8; 4],
) -> bool {
    &&& triangles.len() == wall_count(points.len())
    &&& forall|w: int|
        0 <= w < points.len() - 1 ==> quad_swept(
            #[trigger] points[w],
            points[w + 1],
            path,
            color,
            triangles[2 * w],
            triangles[2 * w + 1],
        )
}

/// Whether the target holds the side face over the edge at place `m` of the
/// source's cycle at place `k`: a surface swept from the edge's curve along
/// the path, on it a cycle of the edge's bottom copy, its top copy and the
/// side edges at its two vertices, and the face bounded by that cycle.
#[verifier::opaque]
pub open spec fn wall_swept(
    source: ShapeView,
    path: Vector<3>,
    color: [u8; 4],
    target: ShapeView,
    k: int,
    m: int,
    edge: Handle<Edge>,
) -> bool {
    let j = edge.index as int;
    let ends = source.edges[j].vertices->Some_0;
    let q = walls_before(source, k) + m;
    let uses = uses_at(source, k, m + 1);
    let side = 2 * source.edges.len();
    let surface = 2 * source.faces.len() + q;
    let cycle = 2 * source.cycles.len() + q;
    let face = 2 * source.faces.len() + side_faces_before(source, k) + m;
    &&& 0 <= surface < target.surfaces.len()
    &&& 0 <= cycle < target.cycles.len()
    &&& 0 <= face < target.faces.len()
    &&& target.surfaces[surface] == Surface::SweptCurve(
        SweptCurve { curve: source.curves[source.edges[j].curve.index as int], path },
    )
    &&& target.cycles[cycle].edges@ == seq![
        handle_at::<Edge>(target.id, 2 * j),
        handle_at::<Edge>(target.id, 2 * j + 1),
        handle_at::<Edge>(target.id, side + side_rank(uses, ends[0].index as int)),
        handle_at::<Edge>(target.id, side + side_rank(uses, ends[1].index as int)),
    ]
    &&& face_is(
        target.faces[face],
        handle_at(target.id, surface),
        seq![handle_at::<Cycle>(target.id, cycle)],
        color,
    )
}

/// Whether the target holds the side faces of the source's cycle at place
/// `k`, as far as its first `edges` edges: for a single continuous edge the
/// wall of triangles over its approximation, else a side face over each edge.
pub open spec fn cycle_sides_swept(
    source: ShapeView,
    path: Vector<3>,
    tolerance: fj_math::Scalar,
    color: [u8; 4],
    target: ShapeView,
    k: int,
    edges: int,
    cycle: Cycle,
) -> bool {
    if cycle_continuous(source, cycle) {
        let place = 2 * source.faces.len() + side_faces_before(source, k);
        &&& 0 <= place < target.faces.len()
        &&& target.faces[place] is Triangles
        &&& is_wall(
            target.faces[place]->Triangles_0@,
            approximation(source, cycle.edges@, tolerance),
            path,
            color,
        )
    } else {
        forall|m: int|
            0 <= m < edges ==> wall_swept(source, path, color, target, k, m, #[trigger] cycle.edges@[m])
    }
}

/// Whether the target holds the side faces of the first `k` cycles of the
/// source and of the first `m` edges of the next.
#[verifier::opaque]
pub open spec fn walls_swept(
    source: ShapeView,
    path: Vector<3>,
    tolerance: fj_math::Scalar,
    color: [u8; 4],
    target: ShapeView,
    k: int,
    m: int,
) -> bool {
    &&& forall|c: int|
        0 <= c < k ==> cycle_sides_swept(
            source,
            path,
            tolerance,
            color,
            target,
            c,
            source.cycles[c].edges@.len() as int,
            #[trigger] source.cycles[c],
        )
    &&& m > 0 ==> cycle_sides_swept(source, path, tolerance, color, target, k, m, source.cycles[k])
}

/// Whether the target holds, behind the copies, nothing but the sides of the
/// first `k` cycles of the source and of the first `m` edges of the next.
pub open spec fn sides_sized(source: ShapeView, target: ShapeView, k: int, m: int) -> bool {
    let made = first_uses(uses_at(source, k, m)).len();
    &&& target.curves.len() == 2 * source.edges.len() + made
    &&& target.edges.len() == 2 * source.edges.len() + made
    &&& target.surfaces.len() == 2 * source.faces.len() + walls_before(source, k) + m
    &&& target.cycles.len() == 2 * source.cycles.len() + walls_before(source, k) + m
    &&& target.faces.len() == 2 * source.faces.len() + side_faces_before(source, k) + m
}

/// Whether the target holds, behind the copies, the sides of the first `k`
/// cycles of the source and of the first `m` edges of the next: the side
/// edges that they asked for and their side faces, and nothing else.
pub open spec fn sides_swept(
    source: ShapeView,
    path: Vector<3>,
    tolerance: fj_math::Scalar,
    color: [u8; 4],
    target: ShapeView,
    k: int,
    m: int,
) -> bool {
    &&& sides_sized(source, target, k, m)
    &&& side_edges_swept(source, target, first_uses(uses_at(source, k, m)))
    &&& walls_swept(source, path, tolerance, color, target, k, m)
}

/// Whether `target` is the sweep of `source` along the path: the copies of
/// the source's vertices, edges, cycles and faces, and behind them the sides
/// of all of its cycles. It holds no points of its own.
pub open spec fn swept(
    source: ShapeView,
    path: Vector<3>,
    tolerance: fj_math::Scalar,
    color: [u8; 4],
    target: ShapeView,
) -> bool {
    &&& target.points.len() == 0
    &&& vertices_swept(source, path, target)
    &&& edges_swept(source, path, target)
    &&& cycles_swept(source, target)
    &&& faces_swept(source, path, color, target)
    &&& sides_swept(source, path, tolerance, color, target, source.cycles.len() as int, 0)
}

} // verus!
