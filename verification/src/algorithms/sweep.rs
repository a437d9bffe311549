//! Sweeping: the shape that another shape covers when it is moved along a
//! path.

pub mod caps;
pub mod laws;
pub mod model;
pub mod relation;
pub mod sides;

use vstd::prelude::*;

use crate::algorithms::sweep::caps::{sweep_cycles, sweep_edges, sweep_faces, sweep_vertices};
use crate::algorithms::sweep::model::{swept, sweepable};
use crate::algorithms::sweep::sides::{lemma_caps_kept, lemma_edges_kept, sweep_sides};
use crate::math::transform::{lemma_translation_bounded, translation};
use crate::math::Vector;
use crate::shape::{Handle, Shape};
use crate::topology::{Edge, Face, Vertex};

pub use self::relation::Relation;
pub use self::sides::wall_triangles;

verus! {

/// Creates a new shape by sweeping an existing one along a path.
///
/// The new shape holds every vertex, edge, cycle and face of the source
/// twice: as it is, and moved along the path. Between the two copies of each
/// cycle stand its sides. Every face of the new shape has the given colour.
/// The tolerance bounds how far the sides of a continuous edge may lie from
/// the edge's curve.
pub fn sweep_shape(
    source: &Shape,
    path: Vector<3>,
    tolerance: fj_math::Scalar,
    color: [u8; 4],
) -> (target: Shape)
    requires
        sweepable(source@),
        path.bounded(),
    ensures
        target.wf(),
        swept(source@, path, tolerance, color, target@),
{
    let mut target = Shape::new();
    let lift = translation(&path);
    proof {
        lemma_translation_bounded(path@);
    }
    let mut bottom = Relation::new();
    let mut top = Relation::new();
    sweep_vertices(source, &mut target, &path, &mut bottom, &mut top);
    sweep_edges(source, &mut target, &path, &lift, &mut bottom, &mut top);
    sweep_cycles(source, &mut target, &path, &mut bottom, &mut top);
    sweep_faces(source, &mut target, &path, &lift, color, &bottom, &top);
    let ghost copies = target@;
    sweep_sides(source, &mut target, &path, tolerance, color, &bottom, &top);
    proof {
        lemma_edges_kept(source@, path, copies, target@);
        lemma_caps_kept(source@, path, color, copies, target@);
    }
    target
}

/// Whether the shape can be swept: every face is bounded by cycles, and the
/// vertices, the curves of the edges and the surfaces of the faces are
/// bounded.
pub fn can_sweep(source: &Shape) -> (r: bool)
    requires
        source.wf(),
    ensures
        r == sweepable(source@),
{
    let vertices = source.vertices();
    let mut i: usize = 0;
    while i < vertices.len()
        invariant
            0 <= i <= vertices.len(),
            source.wf(),
            vertices@ == Seq::new(
                source@.vertices.len(),
                |n: int| crate::shape::handle_at::<Vertex<3>>(source@.id, n),
            ),
            forall|n: int| 0 <= n < i ==> (#[trigger] source@.vertices[n]).0.canonical.bounded(),
        decreases vertices.len() - i,
    {
        let handle: Handle<Vertex<3>> = vertices[i];
        let vertex = match source.vertex(&handle) {
            Some(vertex) => vertex,
            None => vstd::pervasive::unreached(),
        };
        if !vertex.point().canonical().is_bounded() {
            assert(!source@.vertices[i as int].0.canonical.bounded());
            return false;
        }
        i += 1;
    }
    let edges = source.edges();
    let mut j: usize = 0;
    while j < edges.len()
        invariant
            0 <= j <= edges.len(),
            source.wf(),
            edges@ == Seq::new(
                source@.edges.len(),
                |n: int| crate::shape::handle_at::<Edge>(source@.id, n),
            ),
            forall|n: int|
                0 <= n < j ==> source@.curves[(
                #[trigger] source@.edges[n]).curve.index as int].bounded(),
        decreases edges.len() - j,
    {
        let handle: Handle<Edge> = edges[j];
        let edge = match source.edge(&handle) {
            Some(edge) => edge,
            None => vstd::pervasive::unreached(),
        };
        assert(source@.edge_valid(source@.edges[j as int]));
        let curve = match source.curve(&edge.curve) {
            Some(curve) => curve,
            None => vstd::pervasive::unreached(),
        };
        if !curve.is_bounded() {
            assert(!source@.curves[source@.edges[j as int].curve.index as int].bounded());
            return false;
        }
        j += 1;
    }
    let faces = source.faces();
    let mut f: usize = 0;
    while f < faces.len()
        invariant
            0 <= f <= faces.len(),
            source.wf(),
            faces@ == Seq::new(
                source@.faces.len(),
                |n: int| crate::shape::handle_at::<Face>(source@.id, n),
            ),
            forall|n: int|
                0 <= n < f ==> (#[trigger] source@.faces[n]) is Face
                    && source@.surfaces[source@.faces[n]->surface.index as int].bounded(),
        decreases faces.len() - f,
    {
        let handle: Handle<Face> = faces[f];
        let face = match source.face(&handle) {
            Some(face) => face,
            None => vstd::pervasive::unreached(),
        };
        assert(source@.face_valid(source@.faces[f as int]));
        if !face.is_bounded_by_cycles() {
            assert(!(source@.faces[f as int] is Face));
            return false;
        }
        if !face.surface(source).is_bounded() {
            assert(!source@.surfaces[source@.faces[f as int]->surface.index as int].bounded());
            return false;
        }
        f += 1;
    }
    true
}

/// Sweeps the shape if it can be swept along the path, and says so if not.
pub fn try_sweep_shape(
    source: &Shape,
    path: Vector<3>,
    tolerance: fj_math::Scalar,
    color: [u8; 4],
) -> (r: Option<Shape>)
    requires
        source.wf(),
    ensures
        match r {
            Some(target) => {
                &&& sweepable(source@)
                &&& path.bounded()
                &&& target.wf()
                &&& swept(source@, path, tolerance, color, target@)
            },
            None => !(sweepable(source@) && path.bounded()),
        },
{
    if can_sweep(source) && path.is_bounded() {
        Some(sweep_shape(source, path, tolerance, color))
    } else {
        None
    }
}

} // verus!
