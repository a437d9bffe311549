//! The copies: every object of the source, at the bottom and at the top.

use vstd::prelude::*;

use crate::algorithms::sweep::model::{
    copied_cycles, copied_edges, cycle_swept, cycles_swept, edge_swept, edges_swept, face_swept,
    faces_swept, raised, sweepable, vertices_swept,
};
use crate::algorithms::sweep::relation::{edge_ends, Relation};
use crate::geometry;

use crate::math::transform::{transform_bounded, transform_entries, translation_entries};
use crate::math::vector::point_plus;
use crate::math::Vector;
use crate::shape::{handle_at, Handle, Shape, ShapeView, ValidationError};
use crate::topology::{Cycle, Edge, Face, Vertex};

verus! {

/// Whether the copies hold, for each of the first `count` objects of the
/// source, the handle of its copy in the target: the bottom copy for offset
/// zero, the top copy for offset one.
pub open spec fn relates<T>(
    copies: Map<usize, Handle<T>>,
    target: u64,
    count: int,
    offset: int,
) -> bool {
    forall|key: usize|
        key < count ==> #[trigger] copies.contains_key(key) && copies[key] == handle_at::<T>(
            target,
            2 * key + offset,
        )
}

/// The copies still relate when the copy of the next object is recorded.
pub proof fn lemma_relates_next<T>(
    copies: Map<usize, Handle<T>>,
    target: u64,
    count: usize,
    offset: int,
    handle: Handle<T>,
)
    requires
        relates(copies, target, count as int, offset),
        handle == handle_at::<T>(target, 2 * count + offset),
    ensures
        relates(copies.insert(count, handle), target, count + 1, offset),
{
    let grown = copies.insert(count, handle);
    assert forall|key: usize| key < count + 1 implies #[trigger] grown.contains_key(key)
        && grown[key] == handle_at::<T>(target, 2 * key + offset) by {
        if key < count {
            assert(copies.contains_key(key));
        }
    }
}

/// The handle of an object that the shape has just stored. That the shape
/// refuses it would break what the sweep has built so far, and cannot happen.
pub(crate) fn stored<T>(r: Result<Handle<T>, ValidationError>) -> (handle: Handle<T>)
    requires
        r is Ok,
    ensures
        r == Ok::<Handle<T>, ValidationError>(handle),
{
    match r {
        Ok(handle) => handle,
        Err(_) => vstd::pervasive::unreached(),
    }
}

/// Copies the vertices: each as it is, and raised by the path.
pub(crate) fn sweep_vertices(
    source: &Shape,
    target: &mut Shape,
    path: &Vector<3>,
    bottom: &mut Relation,
    top: &mut Relation,
)
    requires
        sweepable(source@),
        old(target).wf(),
        old(target)@.vertices.len() == 0,
    ensures
        final(target).wf(),
        final(target)@ == (ShapeView { vertices: final(target)@.vertices, ..old(target)@ }),
        vertices_swept(source@, *path, final(target)@),
        relates(final(bottom).vertices@, final(target)@.id, source@.vertices.len() as int, 0),
        relates(final(top).vertices@, final(target)@.id, source@.vertices.len() as int, 1),
        final(bottom).edges@ == old(bottom).edges@,
        final(bottom).cycles@ == old(bottom).cycles@,
        final(top).edges@ == old(top).edges@,
        final(top).cycles@ == old(top).cycles@,
{
    let handles = source.vertices();
    let ghost before = target@;
    let mut i: usize = 0;
    while i < handles.len()
        invariant
            0 <= i <= handles.len(),
            handles@ == Seq::new(
                source@.vertices.len(),
                |j: int| handle_at::<Vertex<3>>(source@.id, j),
            ),
            sweepable(source@),
            target.wf(),
            target@ == (ShapeView { vertices: target@.vertices, ..before }),
            target@.vertices.len() == 2 * i,
            forall|j: int|
                0 <= j < i ==> target@.vertices[2 * j] == #[trigger] source@.vertices[j] && raised(
                    source@.vertices[j],
                    *path,
                    target@.vertices[2 * j + 1],
                ),
            relates(bottom.vertices@, target@.id, i as int, 0),
            relates(top.vertices@, target@.id, i as int, 1),
            bottom.edges@ == old(bottom).edges@,
            bottom.cycles@ == old(bottom).cycles@,
            top.edges@ == old(top).edges@,
            top.cycles@ == old(top).cycles@,
        decreases handles.len() - i,
    {
        let handle: Handle<Vertex<3>> = handles[i];
        let vertex = match source.vertex(&handle) {
            Some(vertex) => vertex,
            None => vstd::pervasive::unreached(),
        };
        assert(vertex == source@.vertices[i as int]);
        let point = vertex.point().canonical();
        let lower = stored(target.add_vertex(vertex));
        let upper_point = point_plus(&point, path);
        let upper = stored(
            target.add_vertex(Vertex::new(geometry::Point::from_model(upper_point))),
        );
        proof {
            lemma_relates_next(bottom.vertices@, target@.id, i, 0, lower);
            lemma_relates_next(top.vertices@, target@.id, i, 1, upper);
        }
        bottom.vertices.insert(handle.index, lower);
        top.vertices.insert(handle.index, upper);
        i += 1;
    }
}

/// Copies the edges: each on a copy of its curve between the bottom copies of
/// its vertices, and on the translated curve between their top copies.
pub(crate) fn sweep_edges(
    source: &Shape,
    target: &mut Shape,
    path: &Vector<3>,
    translation: &fj_math::Transform,
    bottom: &mut Relation,
    top: &mut Relation,
)
    requires
        sweepable(source@),
        old(target).wf(),
        old(target)@.curves.len() == 0,
        old(target)@.edges.len() == 0,
        old(target)@.vertices.len() == 2 * source@.vertices.len(),
        transform_entries(*translation) == translation_entries(path@),
        transform_bounded(*translation),
        relates(old(bottom).vertices@, old(target)@.id, source@.vertices.len() as int, 0),
        relates(old(top).vertices@, old(target)@.id, source@.vertices.len() as int, 1),
    ensures
        final(target).wf(),
        final(target)@ == (ShapeView {
            curves: final(target)@.curves,
            edges: final(target)@.edges,
            ..old(target)@
        }),
        final(target)@.curves.len() == 2 * source@.edges.len(),
        final(target)@.edges.len() == 2 * source@.edges.len(),
        edges_swept(source@, *path, final(target)@),
        relates(final(bottom).edges@, final(target)@.id, source@.edges.len() as int, 0),
        relates(final(top).edges@, final(target)@.id, source@.edges.len() as int, 1),
        final(bottom).vertices@ == old(bottom).vertices@,
        final(bottom).cycles@ == old(bottom).cycles@,
        final(top).vertices@ == old(top).vertices@,
        final(top).cycles@ == old(top).cycles@,
{
    let handles = source.edges();
    let ghost before = target@;
    let mut j: usize = 0;
    while j < handles.len()
        invariant
            0 <= j <= handles.len(),
            handles@ == Seq::new(source@.edges.len(), |i: int| handle_at::<Edge>(source@.id, i)),
            sweepable(source@),
            target.wf(),
            target@ == (ShapeView { curves: target@.curves, edges: target@.edges, ..before }),
            before.vertices.len() == 2 * source@.vertices.len(),
            transform_entries(*translation) == translation_entries(path@),
            transform_bounded(*translation),
            target@.curves.len() == 2 * j,
            target@.edges.len() == 2 * j,
            forall|i: int|
                0 <= i < j ==> edge_swept(source@, *path, target@, i, #[trigger] source@.edges[i]),
            relates(bottom.vertices@, target@.id, source@.vertices.len() as int, 0),
            relates(top.vertices@, target@.id, source@.vertices.len() as int, 1),
            relates(bottom.edges@, target@.id, j as int, 0),
            relates(top.edges@, target@.id, j as int, 1),
            bottom.vertices@ == old(bottom).vertices@,
            bottom.cycles@ == old(bottom).cycles@,
            top.vertices@ == old(top).vertices@,
            top.cycles@ == old(top).cycles@,
        decreases handles.len() - j,
    {
        let handle: Handle<Edge> = handles[j];
        let edge = match source.edge(&handle) {
            Some(edge) => edge,
            None => vstd::pervasive::unreached(),
        };
        assert(edge == source@.edges[j as int]);
        assert(source@.edge_valid(edge));
        let curve = match source.curve(&edge.curve) {
            Some(curve) => curve,
            None => vstd::pervasive::unreached(),
        };
        let ghost start = target@;
        let lower_curve = target.add_curve(curve);
        let upper_curve = target.add_curve(curve.transform(translation));
        let lower_ends = bottom.vertices_for_edge(&edge);
        let upper_ends = top.vertices_for_edge(&edge);
        proof {
            match edge.vertices {
                Some(vertices) => {
                    assert(source@.owns_vertex(vertices[0]));
                    assert(source@.owns_vertex(vertices[1]));
                    assert(bottom.vertices@.contains_key(vertices[0].index));
                    assert(bottom.vertices@.contains_key(vertices[1].index));
                    assert(top.vertices@.contains_key(vertices[0].index));
                    assert(top.vertices@.contains_key(vertices[1].index));
                    assert(target@.owns_vertex(lower_ends->Some_0[0]));
                    assert(target@.owns_vertex(lower_ends->Some_0[1]));
                    assert(target@.owns_vertex(upper_ends->Some_0[0]));
                    assert(target@.owns_vertex(upper_ends->Some_0[1]));
                },
                None => {},
            }
        }
        let lower = stored(target.add_edge(Edge { curve: lower_curve, vertices: lower_ends }));
        let upper = stored(target.add_edge(Edge { curve: upper_curve, vertices: upper_ends }));
        proof {
            lemma_relates_next(bottom.edges@, target@.id, j, 0, lower);
            lemma_relates_next(top.edges@, target@.id, j, 1, upper);
        }
        bottom.edges.insert(handle.index, lower);
        top.edges.insert(handle.index, upper);
        proof {
            assert(edge_swept(source@, *path, target@, j as int, source@.edges[j as int]));
            assert forall|i: int| 0 <= i < j implies edge_swept(
                source@,
                *path,
                target@,
                i,
                #[trigger] source@.edges[i],
            ) by {
                assert(edge_swept(source@, *path, start, i, source@.edges[i]));
            }
        }
        j += 1;
    }
}

/// Copies the cycles: each as the cycle of the bottom copies of its edges, and
/// as the cycle of their top copies.
pub(crate) fn sweep_cycles(
    source: &Shape,
    target: &mut Shape,
    path: &Vector<3>,
    bottom: &mut Relation,
    top: &mut Relation,
)
    requires
        sweepable(source@),
        old(target).wf(),
        old(target)@.cycles.len() == 0,
        old(target)@.edges.len() == 2 * source@.edges.len(),
        edges_swept(source@, *path, old(target)@),
        relates(old(bottom).edges@, old(target)@.id, source@.edges.len() as int, 0),
        relates(old(top).edges@, old(target)@.id, source@.edges.len() as int, 1),
    ensures
        final(target).wf(),
        final(target)@ == (ShapeView { cycles: final(target)@.cycles, ..old(target)@ }),
        final(target)@.cycles.len() == 2 * source@.cycles.len(),
        cycles_swept(source@, final(target)@),
        relates(final(bottom).cycles@, final(target)@.id, source@.cycles.len() as int, 0),
        relates(final(top).cycles@, final(target)@.id, source@.cycles.len() as int, 1),
        final(bottom).vertices@ == old(bottom).vertices@,
        final(bottom).edges@ == old(bottom).edges@,
        final(top).vertices@ == old(top).vertices@,
        final(top).edges@ == old(top).edges@,
{
    let handles = source.cycles();
    let ghost before = target@;
    let mut k: usize = 0;
    while k < handles.len()
        invariant
            0 <= k <= handles.len(),
            handles@ == Seq::new(source@.cycles.len(), |i: int| handle_at::<Cycle>(source@.id, i)),
            sweepable(source@),
            target.wf(),
            target@ == (ShapeView { cycles: target@.cycles, ..before }),
            before.edges.len() == 2 * source@.edges.len(),
            edges_swept(source@, *path, before),
            target@.cycles.len() == 2 * k,
            forall|i: int| 0 <= i < k ==> cycle_swept(target@, i, #[trigger] source@.cycles[i]),
            relates(bottom.edges@, target@.id, source@.edges.len() as int, 0),
            relates(top.edges@, target@.id, source@.edges.len() as int, 1),
            relates(bottom.cycles@, target@.id, k as int, 0),
            relates(top.cycles@, target@.id, k as int, 1),
            bottom.vertices@ == old(bottom).vertices@,
            bottom.edges@ == old(bottom).edges@,
            top.vertices@ == old(top).vertices@,
            top.edges@ == old(top).edges@,
        decreases handles.len() - k,
    {
        let handle: Handle<Cycle> = handles[k];
        let cycle = match source.cycle(&handle) {
            Some(cycle) => cycle,
            None => vstd::pervasive::unreached(),
        };
        assert(*cycle == source@.cycles[k as int]);
        assert(source@.cycle_valid(*cycle));
        let ghost start = target@;
        proof {
            assert forall|i: int| 0 <= i < cycle.edges@.len() implies bottom.edges@.contains_key(
                (#[trigger] cycle.edges@[i]).index,
            ) && top.edges@.contains_key(cycle.edges@[i].index) by {
                assert(source@.owns_edge(cycle.edges@[i]));
            }
        }
        let lower_edges = bottom.edges_for_cycle(cycle);
        let upper_edges = top.edges_for_cycle(cycle);
        proof {
            assert(edges_swept(source@, *path, start));
            lemma_copies_valid(source@, *path, start, *cycle, lower_edges@, 0);
            lemma_copies_valid(source@, *path, start, *cycle, upper_edges@, 1);
            assert(lower_edges@ =~= copied_edges(start.id, cycle.edges@, 0)) by {
                assert forall|i: int| 0 <= i < cycle.edges@.len() implies lower_edges@[i]
                    == copied_edges(start.id, cycle.edges@, 0)[i] by {
                    assert(source@.owns_edge(cycle.edges@[i]));
                }
            }
            assert(upper_edges@ =~= copied_edges(start.id, cycle.edges@, 1)) by {
                assert forall|i: int| 0 <= i < cycle.edges@.len() implies upper_edges@[i]
                    == copied_edges(start.id, cycle.edges@, 1)[i] by {
                    assert(source@.owns_edge(cycle.edges@[i]));
                }
            }
        }
        let lower = stored(target.add_cycle(Cycle { edges: lower_edges }));
        let upper = stored(target.add_cycle(Cycle { edges: upper_edges }));
        proof {
            lemma_relates_next(bottom.cycles@, target@.id, k, 0, lower);
            lemma_relates_next(top.cycles@, target@.id, k, 1, upper);
        }
        bottom.cycles.insert(handle.index, lower);
        top.cycles.insert(handle.index, upper);
        proof {
            assert forall|i: int| 0 <= i < k implies cycle_swept(
                target@,
                i,
                #[trigger] source@.cycles[i],
            ) by {
                assert(cycle_swept(start, i, source@.cycles[i]));
            }
        }
        k += 1;
    }
}

/// The copies of a cycle's edges form a cycle that the target accepts.
proof fn lemma_copies_valid(
    source: ShapeView,
    path: Vector<3>,
    target: ShapeView,
    cycle: Cycle,
    copies: Seq<Handle<Edge>>,
    offset: int,
)
    requires
        sweepable(source),
        source.cycle_valid(cycle),
        target.countable(),
        target.edges.len() >= 2 * source.edges.len(),
        edges_swept(source, path, target),
        0 <= offset <= 1,
        copies.len() == cycle.edges@.len(),
        forall|i: int|
            0 <= i < copies.len() ==> #[trigger] copies[i] == handle_at::<Edge>(
                target.id,
                2 * cycle.edges@[i].index + offset,
            ),
    ensures
        target.owns_edges(copies),
        copies.len() >= 2 ==> target.edges_have_vertices(copies),
{
    assert forall|i: int| 0 <= i < copies.len() implies target.owns_edge(#[trigger] copies[i]) by {
        assert(source.owns_edge(cycle.edges@[i]));
    }
    if copies.len() >= 2 {
        assert forall|i: int| 0 <= i < copies.len() implies !target.edges[(
        #[trigger] copies[i]).index as int].continuous() by {
            let e = cycle.edges@[i];
            assert(source.owns_edge(e));
            let j = e.index as int;
            assert(edge_swept(source, path, target, j, source.edges[j]));
            assert(!source.edges[j].continuous());
            assert(edge_ends(source.edges[j]) is Some);
            assert(copies[i].index as int == 2 * j + offset);
            if offset == 0 {
                assert(edge_ends(target.edges[2 * j]) is Some);
            } else {
                assert(edge_ends(target.edges[2 * j + 1]) is Some);
            }
        }
    }
}

/// Copies the faces: each on a copy of its surface, bounded by the bottom
/// copies of its cycles, and on the translated surface, bounded by their top
/// copies. Both are given the colour.
pub(crate) fn sweep_faces(
    source: &Shape,
    target: &mut Shape,
    path: &Vector<3>,
    translation: &fj_math::Transform,
    color: [u8; 4],
    bottom: &Relation,
    top: &Relation,
)
    requires
        sweepable(source@),
        old(target).wf(),
        old(target)@.surfaces.len() == 0,
        old(target)@.faces.len() == 0,
        old(target)@.cycles.len() == 2 * source@.cycles.len(),
        transform_entries(*translation) == translation_entries(path@),
        transform_bounded(*translation),
        relates(bottom.cycles@, old(target)@.id, source@.cycles.len() as int, 0),
        relates(top.cycles@, old(target)@.id, source@.cycles.len() as int, 1),
    ensures
        final(target).wf(),
        final(target)@ == (ShapeView {
            surfaces: final(target)@.surfaces,
            faces: final(target)@.faces,
            ..old(target)@
        }),
        final(target)@.surfaces.len() == 2 * source@.faces.len(),
        final(target)@.faces.len() == 2 * source@.faces.len(),
        faces_swept(source@, *path, color, final(target)@),
{
    let handles = source.faces();
    let ghost before = target@;
    let mut f: usize = 0;
    while f < handles.len()
        invariant
            0 <= f <= handles.len(),
            handles@ == Seq::new(source@.faces.len(), |i: int| handle_at::<Face>(source@.id, i)),
            sweepable(source@),
            target.wf(),
            target@ == (ShapeView { surfaces: target@.surfaces, faces: target@.faces, ..before }),
            before.cycles.len() == 2 * source@.cycles.len(),
            transform_entries(*translation) == translation_entries(path@),
            transform_bounded(*translation),
            target@.surfaces.len() == 2 * f,
            target@.faces.len() == 2 * f,
            forall|i: int|
                0 <= i < f ==> face_swept(
                    source@,
                    *path,
                    color,
                    target@,
                    i,
                    #[trigger] source@.faces[i],
                ),
            relates(bottom.cycles@, target@.id, source@.cycles.len() as int, 0),
            relates(top.cycles@, target@.id, source@.cycles.len() as int, 1),
        decreases handles.len() - f,
    {
        let handle: Handle<Face> = handles[f];
        let face = match source.face(&handle) {
            Some(face) => face,
            None => vstd::pervasive::unreached(),
        };
        assert(*face == source@.faces[f as int]);
        assert(source@.face_valid(*face));
        let ghost start = target@;
        let surface = face.surface(source);
        let lower_surface = target.add_surface(surface);
        let upper_surface = target.add_surface(surface.transform(translation));
        proof {
            assert forall|i: int| 0 <= i < face->cycles@.len() implies bottom.cycles@.contains_key(
                (#[trigger] face->cycles@[i]).index,
            ) && top.cycles@.contains_key(face->cycles@[i].index) by {
                assert(source@.owns_cycle(face->cycles@[i]));
            }
        }
        let lower_cycles = bottom.cycles_for_face(face);
        let upper_cycles = top.cycles_for_face(face);
        proof {
            assert(lower_cycles@ =~= copied_cycles(start.id, face->cycles@, 0)) by {
                assert forall|i: int| 0 <= i < face->cycles@.len() implies lower_cycles@[i]
                    == copied_cycles(start.id, face->cycles@, 0)[i] by {
                    assert(source@.owns_cycle(face->cycles@[i]));
                }
            }
            assert(upper_cycles@ =~= copied_cycles(start.id, face->cycles@, 1)) by {
                assert forall|i: int| 0 <= i < face->cycles@.len() implies upper_cycles@[i]
                    == copied_cycles(start.id, face->cycles@, 1)[i] by {
                    assert(source@.owns_cycle(face->cycles@[i]));
                }
            }
            assert forall|i: int| 0 <= i < lower_cycles@.len() implies target@.owns_cycle(
                #[trigger] lower_cycles@[i],
            ) by {
                assert(source@.owns_cycle(face->cycles@[i]));
            }
            assert forall|i: int| 0 <= i < upper_cycles@.len() implies target@.owns_cycle(
                #[trigger] upper_cycles@[i],
            ) by {
                assert(source@.owns_cycle(face->cycles@[i]));
            }
        }
        let lower_face = Face::Face { surface: lower_surface, cycles: lower_cycles, color };
        let upper_face = Face::Face { surface: upper_surface, cycles: upper_cycles, color };
        let lower = stored(target.add_face(lower_face));
        let upper = stored(target.add_face(upper_face));
        proof {
            assert(face_swept(source@, *path, color, target@, f as int, source@.faces[f as int]));
            assert forall|i: int| 0 <= i < f implies face_swept(
                source@,
                *path,
                color,
                target@,
                i,
                #[trigger] source@.faces[i],
            ) by {
                assert(face_swept(source@, *path, color, start, i, source@.faces[i]));
            }
        }
        f += 1;
    }
}

} // verus!
