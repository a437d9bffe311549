//! The store behind a shape.

use std::collections::hash_map::RandomState;
use std::hash::BuildHasher;
use vstd::prelude::*;

use crate::geometry::{Curve, Surface};
use crate::math::Point;
use crate::shape::handle::{handle_at, handles, Handle};
use crate::shape::validation::ValidationError;
use crate::topology::{Cycle, Edge, Face, Vertex};

verus! {

/// A shape: the points, curves, surfaces, vertices, edges, cycles and faces
/// that make it up.
///
/// Objects are added and never taken away. Each addition returns a handle, by
/// which other objects of the same shape can refer to the new one. An object
/// that refers to anything this shape does not hold is refused.
#[derive(Debug)]
pub struct Shape {
    id: u64,
    points: Vec<Point<3>>,
    curves: Vec<Curve>,
    surfaces: Vec<Surface>,
    vertices: Vec<Vertex<3>>,
    edges: Vec<Edge>,
    cycles: Vec<Cycle>,
    faces: Vec<Face>,
}

/// What a shape holds: its identity, and its objects of each kind in the order
/// in which they were added.
pub struct ShapeView {
    /// The identity by which the shape's handles are told from others.
    pub id: u64,
    /// The points.
    pub points: Seq<Point<3>>,
    /// The curves.
    pub curves: Seq<Curve>,
    /// The surfaces.
    pub surfaces: Seq<Surface>,
    /// The vertices.
    pub vertices: Seq<Vertex<3>>,
    /// The edges.
    pub edges: Seq<Edge>,
    /// The cycles.
    pub cycles: Seq<Cycle>,
    /// The faces.
    pub faces: Seq<Face>,
}

impl View for Shape {
    type V = ShapeView;

    closed spec fn view(&self) -> ShapeView {
        ShapeView {
            id: self.id,
            points: self.points@,
            curves: self.curves@,
            surfaces: self.surfaces@,
            vertices: self.vertices@,
            edges: self.edges@,
            cycles: self.cycles@,
            faces: self.faces@,
        }
    }
}

impl ShapeView {
    /// Whether the shape holds nothing.
    pub open spec fn is_empty(&self) -> bool {
        &&& self.points.len() == 0
        &&& self.curves.len() == 0
        &&& self.surfaces.len() == 0
        &&& self.vertices.len() == 0
        &&& self.edges.len() == 0
        &&& self.cycles.len() == 0
        &&& self.faces.len() == 0
    }

    /// Whether the handle refers to a point of this shape.
    pub open spec fn owns_point(&self, handle: Handle<Point<3>>) -> bool {
        handle.issued_by(self.id, self.points.len())
    }

    /// Whether the handle refers to a curve of this shape.
    pub open spec fn owns_curve(&self, handle: Handle<Curve>) -> bool {
        handle.issued_by(self.id, self.curves.len())
    }

    /// Whether the handle refers to a surface of this shape.
    pub open spec fn owns_surface(&self, handle: Handle<Surface>) -> bool {
        handle.issued_by(self.id, self.surfaces.len())
    }

    /// Whether the handle refers to a vertex of this shape.
    pub open spec fn owns_vertex(&self, handle: Handle<Vertex<3>>) -> bool {
        handle.issued_by(self.id, self.vertices.len())
    }

    /// Whether the handle refers to an edge of this shape.
    pub open spec fn owns_edge(&self, handle: Handle<Edge>) -> bool {
        handle.issued_by(self.id, self.edges.len())
    }

    /// Whether the handle refers to a cycle of this shape.
    pub open spec fn owns_cycle(&self, handle: Handle<Cycle>) -> bool {
        handle.issued_by(self.id, self.cycles.len())
    }

    /// Whether the handle refers to a face of this shape.
    pub open spec fn owns_face(&self, handle: Handle<Face>) -> bool {
        handle.issued_by(self.id, self.faces.len())
    }

    /// Whether the edge refers to a curve and to vertices of this shape only.
    pub open spec fn edge_valid(&self, edge: Edge) -> bool {
        &&& self.owns_curve(edge.curve)
        &&& match edge.vertices {
            Some(vertices) => self.owns_vertex(vertices[0]) && self.owns_vertex(vertices[1]),
            None => true,
        }
    }

    /// Whether the edges are all edges of this shape.
    pub open spec fn owns_edges(&self, edges: Seq<Handle<Edge>>) -> bool {
        forall|i: int| 0 <= i < edges.len() ==> self.owns_edge(#[trigger] edges[i])
    }

    /// Whether each of the edges, all of this shape, has vertices.
    pub open spec fn edges_have_vertices(&self, edges: Seq<Handle<Edge>>) -> bool {
        forall|i: int|
            0 <= i < edges.len() ==> !self.edges[(#[trigger] edges[i]).index as int].continuous()
    }

    /// Whether the cycle is made of edges of this shape, and is not a chain of
    /// several edges of which one is continuous.
    pub open spec fn cycle_valid(&self, cycle: Cycle) -> bool {
        &&& self.owns_edges(cycle.edges@)
        &&& cycle.edges@.len() >= 2 ==> self.edges_have_vertices(cycle.edges@)
    }

    /// Why the cycle, which is not valid, is refused.
    pub open spec fn cycle_error(&self, cycle: Cycle) -> ValidationError {
        if self.owns_edges(cycle.edges@) {
            ValidationError::MixedCycle
        } else {
            ValidationError::MissingReference
        }
    }

    /// Whether the cycles are all cycles of this shape.
    pub open spec fn owns_cycles(&self, cycles: Seq<Handle<Cycle>>) -> bool {
        forall|i: int| 0 <= i < cycles.len() ==> self.owns_cycle(#[trigger] cycles[i])
    }

    /// Whether the face refers to a surface and to cycles of this shape only.
    /// A face of triangles refers to nothing.
    pub open spec fn face_valid(&self, face: Face) -> bool {
        match face {
            Face::Face { surface, cycles, .. } => self.owns_surface(surface) && self.owns_cycles(
                cycles@,
            ),
            Face::Triangles(_) => true,
        }
    }

    /// Whether the number of objects of each kind is one that a machine can
    /// count.
    pub open spec fn countable(&self) -> bool {
        &&& self.points.len() <= usize::MAX
        &&& self.curves.len() <= usize::MAX
        &&& self.surfaces.len() <= usize::MAX
        &&& self.vertices.len() <= usize::MAX
        &&& self.edges.len() <= usize::MAX
        &&& self.cycles.len() <= usize::MAX
        &&& self.faces.len() <= usize::MAX
    }

    /// Whether every object of the shape refers to objects of the shape only,
    /// and every cycle is of one of the two kinds.
    pub open spec fn wf(&self) -> bool {
        &&& self.countable()
        &&& forall|i: int| 0 <= i < self.edges.len() ==> self.edge_valid(#[trigger] self.edges[i])
        &&& forall|i: int|
            0 <= i < self.cycles.len() ==> self.cycle_valid(#[trigger] self.cycles[i])
        &&& forall|i: int| 0 <= i < self.faces.len() ==> self.face_valid(#[trigger] self.faces[i])
    }

    /// Whether this shape is `earlier` with more curves, surfaces, edges,
    /// cycles or faces behind those that `earlier` holds.
    pub open spec fn extends(&self, earlier: ShapeView) -> bool {
        &&& self.id == earlier.id
        &&& self.points == earlier.points
        &&& self.vertices == earlier.vertices
        &&& earlier.curves.len() <= self.curves.len()
        &&& earlier.surfaces.len() <= self.surfaces.len()
        &&& earlier.edges.len() <= self.edges.len()
        &&& earlier.cycles.len() <= self.cycles.len()
        &&& earlier.faces.len() <= self.faces.len()
        &&& forall|i: int| 0 <= i < earlier.curves.len() ==> self.curves[i] == earlier.curves[i]
        &&& forall|i: int|
            0 <= i < earlier.surfaces.len() ==> self.surfaces[i] == earlier.surfaces[i]
        &&& forall|i: int| 0 <= i < earlier.edges.len() ==> self.edges[i] == earlier.edges[i]
        &&& forall|i: int| 0 <= i < earlier.cycles.len() ==> self.cycles[i] == earlier.cycles[i]
        &&& forall|i: int| 0 <= i < earlier.faces.len() ==> self.faces[i] == earlier.faces[i]
    }

    /// The shape with one more point.
    pub open spec fn with_point(self, point: Point<3>) -> ShapeView {
        ShapeView { points: self.points.push(point), ..self }
    }

    /// The shape with one more curve.
    pub open spec fn with_curve(self, curve: Curve) -> ShapeView {
        ShapeView { curves: self.curves.push(curve), ..self }
    }

    /// The shape with one more surface.
    pub open spec fn with_surface(self, surface: Surface) -> ShapeView {
        ShapeView { surfaces: self.surfaces.push(surface), ..self }
    }

    /// The shape with one more vertex.
    pub open spec fn with_vertex(self, vertex: Vertex<3>) -> ShapeView {
        ShapeView { vertices: self.vertices.push(vertex), ..self }
    }

    /// The shape with one more edge.
    pub open spec fn with_edge(self, edge: Edge) -> ShapeView {
        ShapeView { edges: self.edges.push(edge), ..self }
    }

    /// The shape with one more cycle.
    pub open spec fn with_cycle(self, cycle: Cycle) -> ShapeView {
        ShapeView { cycles: self.cycles.push(cycle), ..self }
    }

    /// The shape with one more face.
    pub open spec fn with_face(self, face: Face) -> ShapeView {
        ShapeView { faces: self.faces.push(face), ..self }
    }

    /// An edge that refers to a curve or to a vertex of another shape is not
    /// valid in this one, so this shape refuses it and stays as it is.
    pub proof fn lemma_foreign_edge_refused(self, other: ShapeView, edge: Edge)
        requires
            self.id != other.id,
            other.owns_curve(edge.curve) || (edge.vertices is Some && (other.owns_vertex(
                edge.vertices->Some_0[0],
            ) || other.owns_vertex(edge.vertices->Some_0[1]))),
        ensures
            !self.edge_valid(edge),
    {
    }

    /// A cycle that refers to an edge of another shape is not valid in this
    /// one, so this shape refuses it for a missing reference and stays as it
    /// is.
    pub proof fn lemma_foreign_cycle_refused(self, other: ShapeView, cycle: Cycle, place: int)
        requires
            self.id != other.id,
            0 <= place < cycle.edges@.len(),
            other.owns_edge(cycle.edges@[place]),
        ensures
            !self.cycle_valid(cycle),
            self.cycle_error(cycle) == ValidationError::MissingReference,
    {
        assert(!self.owns_edge(cycle.edges@[place]));
    }

    /// A face that lies on a surface of another shape, or is bounded by a
    /// cycle of another shape, is not valid in this one, so this shape
    /// refuses it and stays as it is.
    pub proof fn lemma_foreign_face_refused(self, other: ShapeView, face: Face, place: int)
        requires
            self.id != other.id,
            face is Face,
            other.owns_surface(face->surface) || (0 <= place < face->cycles@.len()
                && other.owns_cycle(face->cycles@[place])),
        ensures
            !self.face_valid(face),
    {
        if !other.owns_surface(face->surface) {
            assert(!self.owns_cycle(face->cycles@[place]));
        }
    }

    /// A well-formed shape stays so when it grows by objects that are valid in
    /// it: what was stored refers to what is still there.
    pub proof fn lemma_grows_wf(self, grown: ShapeView)
        requires
            self.wf(),
            grown.countable(),
            grown.id == self.id,
            self.points.len() <= grown.points.len(),
            self.curves.len() <= grown.curves.len(),
            self.surfaces.len() <= grown.surfaces.len(),
            self.vertices.len() <= grown.vertices.len(),
            self.edges.len() <= grown.edges.len(),
            self.cycles.len() <= grown.cycles.len(),
            self.faces.len() <= grown.faces.len(),
            forall|i: int| 0 <= i < self.edges.len() ==> grown.edges[i] == self.edges[i],
            forall|i: int| 0 <= i < self.cycles.len() ==> grown.cycles[i] == self.cycles[i],
            forall|i: int| 0 <= i < self.faces.len() ==> grown.faces[i] == self.faces[i],
            forall|i: int|
                self.edges.len() <= i < grown.edges.len() ==> grown.edge_valid(
                    #[trigger] grown.edges[i],
                ),
            forall|i: int|
                self.cycles.len() <= i < grown.cycles.len() ==> grown.cycle_valid(
                    #[trigger] grown.cycles[i],
                ),
            forall|i: int|
                self.faces.len() <= i < grown.faces.len() ==> grown.face_valid(
                    #[trigger] grown.faces[i],
                ),
        ensures
            grown.wf(),
    {
        assert forall|i: int| 0 <= i < grown.edges.len() implies grown.edge_valid(
            #[trigger] grown.edges[i],
        ) by {
            if i < self.edges.len() {
                assert(self.edge_valid(self.edges[i]));
            }
        }
        assert forall|i: int| 0 <= i < grown.cycles.len() implies grown.cycle_valid(
            #[trigger] grown.cycles[i],
        ) by {
            if i < self.cycles.len() {
                let cycle = self.cycles[i];
                assert(self.cycle_valid(cycle));
                assert forall|j: int| 0 <= j < cycle.edges@.len() implies grown.owns_edge(
                    #[trigger] cycle.edges@[j],
                ) by {
                    assert(self.owns_edge(cycle.edges@[j]));
                }
                if cycle.edges@.len() >= 2 {
                    assert forall|j: int| 0 <= j < cycle.edges@.len() implies !grown.edges[(
                    #[trigger] cycle.edges@[j]).index as int].continuous() by {
                        assert(self.owns_edge(cycle.edges@[j]));
                    }
                }
            }
        }
        assert forall|i: int| 0 <= i < grown.faces.len() implies grown.face_valid(
            #[trigger] grown.faces[i],
        ) by {
            if i < self.faces.len() {
                let face = self.faces[i];
                assert(self.face_valid(face));
                match face {
                    Face::Face { surface, cycles, .. } => {
                        assert forall|j: int| 0 <= j < cycles@.len() implies grown.owns_cycle(
                            #[trigger] cycles@[j],
                        ) by {
                            assert(self.owns_cycle(cycles@[j]));
                        }
                    },
                    Face::Triangles(_) => {},
                }
            }
        }
    }
}

/// `RandomState::new` of the standard library: a hasher state with keys that
/// differ from one call to the next. Nothing is known of it.
#[verifier::external_body]
fn fresh_state() -> (r: RandomState) {
    RandomState::new()
}

/// `BuildHasher::hash_one` of the standard library, on a fixed byte: the
/// number that the state's keys give. Nothing is known of it.
#[verifier::external_body]
fn state_number(state: &RandomState) -> (r: u64) {
    state.hash_one(0u8)
}

impl Shape {
    /// Whether every object of the shape refers to objects of the shape only,
    /// and every cycle is of one of the two kinds.
    pub open spec fn wf(&self) -> bool {
        self@.wf()
    }

    /// The objects of a shape can be counted.
    pub proof fn lemma_countable(&self)
        ensures
            self@.countable(),
    {
        assert(self.points@.len() == self.points.len());
        assert(self.curves@.len() == self.curves.len());
        assert(self.surfaces@.len() == self.surfaces.len());
        assert(self.vertices@.len() == self.vertices.len());
        assert(self.edges@.len() == self.edges.len());
        assert(self.cycles@.len() == self.cycles.len());
        assert(self.faces@.len() == self.faces.len());
    }

    /// An empty shape.
    ///
    /// Its identity is drawn at random, so that the handles of two shapes are
    /// not taken for one another.
    pub fn new() -> (r: Self)
        ensures
            r@.is_empty(),
            r.wf(),
    {
        let state = fresh_state();
        Shape {
            id: state_number(&state),
            points: Vec::new(),
            curves: Vec::new(),
            surfaces: Vec::new(),
            vertices: Vec::new(),
            edges: Vec::new(),
            cycles: Vec::new(),
            faces: Vec::new(),
        }
    }

    /// The identity by which the shape's handles are told from others.
    pub fn id(&self) -> (r: u64)
        ensures
            r == self@.id,
    {
        self.id
    }

    /// Whether the handle refers to a point of this shape.
    pub fn holds_point(&self, handle: &Handle<Point<3>>) -> (r: bool)
        ensures
            r == self@.owns_point(*handle),
    {
        handle.shape == self.id && handle.index < self.points.len()
    }

    /// Whether the handle refers to a curve of this shape.
    pub fn holds_curve(&self, handle: &Handle<Curve>) -> (r: bool)
        ensures
            r == self@.owns_curve(*handle),
    {
        handle.shape == self.id && handle.index < self.curves.len()
    }

    /// Whether the handle refers to a surface of this shape.
    pub fn holds_surface(&self, handle: &Handle<Surface>) -> (r: bool)
        ensures
            r == self@.owns_surface(*handle),
    {
        handle.shape == self.id && handle.index < self.surfaces.len()
    }

    /// Whether the handle refers to a vertex of this shape.
    pub fn holds_vertex(&self, handle: &Handle<Vertex<3>>) -> (r: bool)
        ensures
            r == self@.owns_vertex(*handle),
    {
        handle.shape == self.id && handle.index < self.vertices.len()
    }

    /// Whether the handle refers to an edge of this shape.
    pub fn holds_edge(&self, handle: &Handle<Edge>) -> (r: bool)
        ensures
            r == self@.owns_edge(*handle),
    {
        handle.shape == self.id && handle.index < self.edges.len()
    }

    /// Whether the handle refers to a cycle of this shape.
    pub fn holds_cycle(&self, handle: &Handle<Cycle>) -> (r: bool)
        ensures
            r == self@.owns_cycle(*handle),
    {
        handle.shape == self.id && handle.index < self.cycles.len()
    }

    /// Whether the handle refers to a face of this shape.
    pub fn holds_face(&self, handle: &Handle<Face>) -> (r: bool)
        ensures
            r == self@.owns_face(*handle),
    {
        handle.shape == self.id && handle.index < self.faces.len()
    }

    /// Adds a point.
    pub fn add_point(&mut self, point: Point<3>) -> (handle: Handle<Point<3>>)
        requires
            old(self).wf(),
        ensures
            final(self).wf(),
            final(self)@ == old(self)@.with_point(point),
            handle == handle_at::<Point<3>>(old(self)@.id, old(self)@.points.len() as int),
    {
        let index: usize = self.points.len();
        self.points.push(point);
        proof {
            assert(self@ == old(self)@.with_point(point));
            self.lemma_countable();
            old(self)@.lemma_grows_wf(self@);
        }
        Handle::new(self.id, index)
    }

    /// Adds a curve.
    pub fn add_curve(&mut self, curve: Curve) -> (handle: Handle<Curve>)
        requires
            old(self).wf(),
        ensures
            final(self).wf(),
            final(self)@ == old(self)@.with_curve(curve),
            handle == handle_at::<Curve>(old(self)@.id, old(self)@.curves.len() as int),
    {
        let index: usize = self.curves.len();
        self.curves.push(curve);
        proof {
            assert(self@ == old(self)@.with_curve(curve));
            self.lemma_countable();
            old(self)@.lemma_grows_wf(self@);
        }
        Handle::new(self.id, index)
    }

    /// Adds a surface.
    pub fn add_surface(&mut self, surface: Surface) -> (handle: Handle<Surface>)
        requires
            old(self).wf(),
        ensures
            final(self).wf(),
            final(self)@ == old(self)@.with_surface(surface),
            handle == handle_at::<Surface>(old(self)@.id, old(self)@.surfaces.len() as int),
    {
        let index: usize = self.surfaces.len();
        self.surfaces.push(surface);
        proof {
            assert(self@ == old(self)@.with_surface(surface));
            self.lemma_countable();
            old(self)@.lemma_grows_wf(self@);
        }
        Handle::new(self.id, index)
    }

    /// Adds a vertex. A vertex refers to nothing, so it is never refused.
    pub fn add_vertex(&mut self, vertex: Vertex<3>) -> (r: Result<
        Handle<Vertex<3>>,
        ValidationError,
    >)
        requires
            old(self).wf(),
        ensures
            final(self).wf(),
            final(self)@ == old(self)@.with_vertex(vertex),
            r == Ok::<Handle<Vertex<3>>, ValidationError>(
                handle_at::<Vertex<3>>(old(self)@.id, old(self)@.vertices.len() as int),
            ),
    {
        let index: usize = self.vertices.len();
        self.vertices.push(vertex);
        proof {
            assert(self@ == old(self)@.with_vertex(vertex));
            self.lemma_countable();
            old(self)@.lemma_grows_wf(self@);
        }
        Ok(Handle::new(self.id, index))
    }

    /// Adds an edge, unless it refers to a curve or a vertex that this shape
    /// does not hold.
    pub fn add_edge(&mut self, edge: Edge) -> (r: Result<Handle<Edge>, ValidationError>)
        requires
            old(self).wf(),
        ensures
            final(self).wf(),
            match r {
                Ok(handle) => {
                    &&& old(self)@.edge_valid(edge)
                    &&& final(self)@ == old(self)@.with_edge(edge)
                    &&& handle == handle_at::<Edge>(old(self)@.id, old(self)@.edges.len() as int)
                },
                Err(error) => {
                    &&& !old(self)@.edge_valid(edge)
                    &&& *final(self) == *old(self)
                    &&& error == ValidationError::MissingReference
                },
            },
    {
        if !self.holds_curve(&edge.curve) {
            return Err(ValidationError::MissingReference);
        }
        match edge.vertices {
            Some(vertices) => {
                if !self.holds_vertex(&vertices[0]) || !self.holds_vertex(&vertices[1]) {
                    return Err(ValidationError::MissingReference);
                }
            },
            None => {},
        }
        let index: usize = self.edges.len();
        self.edges.push(edge);
        proof {
            assert(self@ == old(self)@.with_edge(edge));
            self.lemma_countable();
            old(self)@.lemma_grows_wf(self@);
        }
        Ok(Handle::new(self.id, index))
    }

    /// Adds a cycle, unless it refers to an edge that this shape does not
    /// hold, or has several edges of which one is continuous.
    pub fn add_cycle(&mut self, cycle: Cycle) -> (r: Result<Handle<Cycle>, ValidationError>)
        requires
            old(self).wf(),
        ensures
            final(self).wf(),
            match r {
                Ok(handle) => {
                    &&& old(self)@.cycle_valid(cycle)
                    &&& final(self)@ == old(self)@.with_cycle(cycle)
                    &&& handle == handle_at::<Cycle>(old(self)@.id, old(self)@.cycles.len() as int)
                },
                Err(error) => {
                    &&& !old(self)@.cycle_valid(cycle)
                    &&& *final(self) == *old(self)
                    &&& error == old(self)@.cycle_error(cycle)
                },
            },
    {
        let count: usize = cycle.edges.len();
        let mut i: usize = 0;
        while i < count
            invariant
                0 <= i <= count,
                count == cycle.edges@.len(),
                *self == *old(self),
                self.wf(),
                forall|j: int| 0 <= j < i ==> self@.owns_edge(#[trigger] cycle.edges@[j]),
            decreases count - i,
        {
            if !self.holds_edge(&cycle.edges[i]) {
                assert(!self@.owns_edge(cycle.edges@[i as int]));
                return Err(ValidationError::MissingReference);
            }
            i += 1;
        }
        if count >= 2 {
            let mut k: usize = 0;
            while k < count
                invariant
                    0 <= k <= count,
                    count >= 2,
                    count == cycle.edges@.len(),
                    *self == *old(self),
                self.wf(),
                    self@.owns_edges(cycle.edges@),
                    forall|j: int|
                        0 <= j < k ==> !self@.edges[(#[trigger] cycle.edges@[j]).index as int].continuous(),
                decreases count - k,
            {
                let handle: Handle<Edge> = cycle.edges[k];
                assert(self@.owns_edge(cycle.edges@[k as int]));
                if self.edges[handle.index].is_continuous() {
                    assert(self@.edges[cycle.edges@[k as int].index as int].continuous());
                    return Err(ValidationError::MixedCycle);
                }
                k += 1;
            }
        }
        let index: usize = self.cycles.len();
        self.cycles.push(cycle);
        proof {
            assert(self@ == old(self)@.with_cycle(cycle));
            self.lemma_countable();
            old(self)@.lemma_grows_wf(self@);
        }
        Ok(Handle::new(self.id, index))
    }

    /// Adds a face, unless it refers to a surface or a cycle that this shape
    /// does not hold.
    pub fn add_face(&mut self, face: Face) -> (r: Result<Handle<Face>, ValidationError>)
        requires
            old(self).wf(),
        ensures
            final(self).wf(),
            match r {
                Ok(handle) => {
                    &&& old(self)@.face_valid(face)
                    &&& final(self)@ == old(self)@.with_face(face)
                    &&& handle == handle_at::<Face>(old(self)@.id, old(self)@.faces.len() as int)
                },
                Err(error) => {
                    &&& !old(self)@.face_valid(face)
                    &&& *final(self) == *old(self)
                    &&& error == ValidationError::MissingReference
                },
            },
    {
        match &face {
            Face::Face { surface, cycles, .. } => {
                if !self.holds_surface(surface) {
                    return Err(ValidationError::MissingReference);
                }
                let count: usize = cycles.len();
                let mut i: usize = 0;
                while i < count
                    invariant
                        0 <= i <= count,
                        count == cycles@.len(),
                        face is Face,
                        face->cycles == *cycles,
                        *self == *old(self),
                self.wf(),
                        forall|j: int| 0 <= j < i ==> self@.owns_cycle(#[trigger] cycles@[j]),
                    decreases count - i,
                {
                    if !self.holds_cycle(&cycles[i]) {
                        assert(!self@.owns_cycle(cycles@[i as int]));
                        return Err(ValidationError::MissingReference);
                    }
                    i += 1;
                }
            },
            Face::Triangles(_) => {},
        }
        let index: usize = self.faces.len();
        self.faces.push(face);
        proof {
            assert(self@ == old(self)@.with_face(face));
            self.lemma_countable();
            old(self)@.lemma_grows_wf(self@);
        }
        Ok(Handle::new(self.id, index))
    }

    /// Handles to the points, in the order in which they were added.
    pub fn points(&self) -> (r: Vec<Handle<Point<3>>>)
        ensures
            r@ == Seq::new(self@.points.len(), |i: int| handle_at::<Point<3>>(self@.id, i)),
    {
        handles(self.id, self.points.len())
    }

    /// Handles to the curves, in the order in which they were added.
    pub fn curves(&self) -> (r: Vec<Handle<Curve>>)
        ensures
            r@ == Seq::new(self@.curves.len(), |i: int| handle_at::<Curve>(self@.id, i)),
    {
        handles(self.id, self.curves.len())
    }

    /// Handles to the surfaces, in the order in which they were added.
    pub fn surfaces(&self) -> (r: Vec<Handle<Surface>>)
        ensures
            r@ == Seq::new(self@.surfaces.len(), |i: int| handle_at::<Surface>(self@.id, i)),
    {
        handles(self.id, self.surfaces.len())
    }

    /// Handles to the vertices, in the order in which they were added.
    pub fn vertices(&self) -> (r: Vec<Handle<Vertex<3>>>)
        ensures
            r@ == Seq::new(self@.vertices.len(), |i: int| handle_at::<Vertex<3>>(self@.id, i)),
    {
        handles(self.id, self.vertices.len())
    }

    /// Handles to the edges, in the order in which they were added.
    pub fn edges(&self) -> (r: Vec<Handle<Edge>>)
        ensures
            r@ == Seq::new(self@.edges.len(), |i: int| handle_at::<Edge>(self@.id, i)),
    {
        handles(self.id, self.edges.len())
    }

    /// Handles to the cycles, in the order in which they were added.
    pub fn cycles(&self) -> (r: Vec<Handle<Cycle>>)
        ensures
            r@ == Seq::new(self@.cycles.len(), |i: int| handle_at::<Cycle>(self@.id, i)),
    {
        handles(self.id, self.cycles.len())
    }

    /// Handles to the faces, in the order in which they were added.
    pub fn faces(&self) -> (r: Vec<Handle<Face>>)
        ensures
            r@ == Seq::new(self@.faces.len(), |i: int| handle_at::<Face>(self@.id, i)),
    {
        handles(self.id, self.faces.len())
    }

    /// The point that the handle refers to, if it is one of this shape.
    pub fn point(&self, handle: &Handle<Point<3>>) -> (r: Option<Point<3>>)
        ensures
            r == if self@.owns_point(*handle) {
                Some(self@.points[handle.index as int])
            } else {
                None
            },
    {
        if self.holds_point(handle) {
            Some(self.points[handle.index])
        } else {
            None
        }
    }

    /// The curve that the handle refers to, if it is one of this shape.
    pub fn curve(&self, handle: &Handle<Curve>) -> (r: Option<Curve>)
        ensures
            r == if self@.owns_curve(*handle) {
                Some(self@.curves[handle.index as int])
            } else {
                None
            },
    {
        if self.holds_curve(handle) {
            Some(self.curves[handle.index])
        } else {
            None
        }
    }

    /// The surface that the handle refers to, if it is one of this shape.
    pub fn surface(&self, handle: &Handle<Surface>) -> (r: Option<Surface>)
        ensures
            r == if self@.owns_surface(*handle) {
                Some(self@.surfaces[handle.index as int])
            } else {
                None
            },
    {
        if self.holds_surface(handle) {
            Some(self.surfaces[handle.index])
        } else {
            None
        }
    }

    /// The vertex that the handle refers to, if it is one of this shape.
    pub fn vertex(&self, handle: &Handle<Vertex<3>>) -> (r: Option<Vertex<3>>)
        ensures
            r == if self@.owns_vertex(*handle) {
                Some(self@.vertices[handle.index as int])
            } else {
                None
            },
    {
        if self.holds_vertex(handle) {
            Some(self.vertices[handle.index])
        } else {
            None
        }
    }

    /// The edge that the handle refers to, if it is one of this shape.
    pub fn edge(&self, handle: &Handle<Edge>) -> (r: Option<Edge>)
        ensures
            r == if self@.owns_edge(*handle) {
                Some(self@.edges[handle.index as int])
            } else {
                None
            },
    {
        if self.holds_edge(handle) {
            Some(self.edges[handle.index])
        } else {
            None
        }
    }

    /// The cycle that the handle refers to, if it is one of this shape.
    pub fn cycle(&self, handle: &Handle<Cycle>) -> (r: Option<&Cycle>)
        ensures
            match r {
                Some(cycle) => self@.owns_cycle(*handle) && *cycle == self@.cycles[handle.index as int],
                None => !self@.owns_cycle(*handle),
            },
    {
        if self.holds_cycle(handle) {
            Some(&self.cycles[handle.index])
        } else {
            None
        }
    }

    /// The face that the handle refers to, if it is one of this shape.
    pub fn face(&self, handle: &Handle<Face>) -> (r: Option<&Face>)
        ensures
            match r {
                Some(face) => self@.owns_face(*handle) && *face == self@.faces[handle.index as int],
                None => !self@.owns_face(*handle),
            },
    {
        if self.holds_face(handle) {
            Some(&self.faces[handle.index])
        } else {
            None
        }
    }
}

} // verus!
