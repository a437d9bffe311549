use fj_kernel::geometry;
use fj_kernel::geometry::{Curve, Line, Surface};
use fj_kernel::math::{Point, Vector};
use fj_kernel::shape::{Handle, Shape, ValidationError};
use fj_kernel::topology::{Cycle, Edge, Face, Vertex};

fn scalar(value: f64) -> fj_math::Scalar {
    fj_math::Scalar::from_f64(value)
}

fn point(coords: [f64; 3]) -> Point<3> {
    Point::new(coords.map(scalar))
}

fn vector(components: [f64; 3]) -> Vector<3> {
    Vector::new(components.map(scalar))
}

fn vertex(coords: [f64; 3]) -> Vertex<3> {
    Vertex::new(geometry::Point::from_model(point(coords)))
}

fn x_axis() -> Curve {
    Curve::Line(Line { origin: point([0., 0., 0.]), direction: vector([1., 0., 0.]) })
}

fn counts(shape: &Shape) -> [usize; 7] {
    [
        shape.points().len(),
        shape.curves().len(),
        shape.surfaces().len(),
        shape.vertices().len(),
        shape.edges().len(),
        shape.cycles().len(),
        shape.faces().len(),
    ]
}

/// A shape with two vertices, an edge between them and a continuous edge, on
/// one curve.
fn segment() -> (Shape, Handle<Curve>, [Handle<Vertex<3>>; 2], Handle<Edge>, Handle<Edge>) {
    let mut shape = Shape::new();
    let curve = shape.add_curve(x_axis());
    let a = shape.add_vertex(vertex([0., 0., 0.])).unwrap();
    let b = shape.add_vertex(vertex([1., 0., 0.])).unwrap();
    let edge = shape.add_edge(Edge { curve, vertices: Some([a, b]) }).unwrap();
    let continuous = shape.add_edge(Edge { curve, vertices: None }).unwrap();
    (shape, curve, [a, b], edge, continuous)
}

#[test]
fn new_shape_is_empty() {
    let shape = Shape::new();
    assert_eq!(counts(&shape), [0; 7]);
}

#[test]
fn objects_are_listed_in_the_order_in_which_they_were_added() {
    let mut shape = Shape::new();
    let first = shape.add_point(point([1., 2., 3.]));
    let second = shape.add_point(point([4., 5., 6.]));
    assert_eq!(shape.points(), vec![first, second]);
    assert_eq!(first.index, 0);
    assert_eq!(second.index, 1);
    assert_eq!(first.shape, shape.id());
    assert_eq!(shape.point(&first), Some(point([1., 2., 3.])));
    assert_eq!(shape.point(&second), Some(point([4., 5., 6.])));

    let a = shape.add_vertex(vertex([0., 0., 0.])).unwrap();
    let b = shape.add_vertex(vertex([1., 0., 0.])).unwrap();
    assert_eq!(shape.vertices(), vec![a, b]);
    assert_eq!(shape.vertex(&b), Some(vertex([1., 0., 0.])));

    let curve = shape.add_curve(x_axis());
    assert_eq!(shape.curves(), vec![curve]);
    assert_eq!(shape.curve(&curve), Some(x_axis()));

    let surface = shape.add_surface(Surface::x_y_plane());
    assert_eq!(shape.surfaces(), vec![surface]);
    assert_eq!(shape.surface(&surface), Some(Surface::x_y_plane()));

    let ab = shape.add_edge(Edge { curve, vertices: Some([a, b]) }).unwrap();
    let ba = shape.add_edge(Edge { curve, vertices: Some([b, a]) }).unwrap();
    assert_eq!(shape.edges(), vec![ab, ba]);
    assert_eq!(shape.edge(&ba), Some(Edge { curve, vertices: Some([b, a]) }));

    let cycle = shape.add_cycle(Cycle { edges: vec![ab, ba] }).unwrap();
    assert_eq!(shape.cycles(), vec![cycle]);
    assert_eq!(shape.cycle(&cycle), Some(&Cycle { edges: vec![ab, ba] }));

    let face = shape
        .add_face(Face::Face { surface, cycles: vec![cycle], color: [1, 2, 3, 4] })
        .unwrap();
    let triangles = shape.add_face(Face::Triangles(vec![])).unwrap();
    assert_eq!(shape.faces(), vec![face, triangles]);
    assert!(shape.face(&face).unwrap().is_bounded_by_cycles());
    assert!(!shape.face(&triangles).unwrap().is_bounded_by_cycles());
    assert_eq!(counts(&shape), [2, 1, 1, 2, 2, 1, 2]);
}

#[test]
fn two_shapes_have_different_identities() {
    assert_ne!(Shape::new().id(), Shape::new().id());
}

#[test]
fn handles_of_another_shape_refer_to_nothing() {
    let (shape, curve, [a, _], edge, _) = segment();
    let other = Shape::new();
    assert!(shape.holds_curve(&curve));
    assert!(shape.holds_vertex(&a));
    assert!(shape.holds_edge(&edge));
    assert!(!other.holds_curve(&curve));
    assert!(!other.holds_vertex(&a));
    assert!(!other.holds_edge(&edge));
    assert_eq!(other.curve(&curve), None);
    assert_eq!(other.vertex(&a), None);
    assert_eq!(other.edge(&edge), None);
}

#[test]
fn handles_past_the_end_refer_to_nothing() {
    let (shape, curve, _, _, _) = segment();
    let forged = Handle { index: 7, ..curve };
    assert!(!shape.holds_curve(&forged));
    assert_eq!(shape.curve(&forged), None);
    let mut shape = shape;
    assert_eq!(
        shape.add_edge(Edge { curve: forged, vertices: None }),
        Err(ValidationError::MissingReference),
    );
}

#[test]
fn edge_with_a_curve_of_another_shape_is_refused() {
    let (_, foreign_curve, _, _, _) = segment();
    let (mut shape, _, [a, b], _, _) = segment();
    let before = counts(&shape);
    assert_eq!(
        shape.add_edge(Edge { curve: foreign_curve, vertices: Some([a, b]) }),
        Err(ValidationError::MissingReference),
    );
    assert_eq!(counts(&shape), before);
}

#[test]
fn edge_with_a_vertex_of_another_shape_is_refused() {
    let (_, _, [foreign, _], _, _) = segment();
    let (mut shape, curve, [a, b], _, _) = segment();
    let before = counts(&shape);
    assert_eq!(
        shape.add_edge(Edge { curve, vertices: Some([foreign, b]) }),
        Err(ValidationError::MissingReference),
    );
    assert_eq!(
        shape.add_edge(Edge { curve, vertices: Some([a, foreign]) }),
        Err(ValidationError::MissingReference),
    );
    assert_eq!(counts(&shape), before);
}

#[test]
fn cycle_with_an_edge_of_another_shape_is_refused() {
    let (_, _, _, foreign, _) = segment();
    let (mut shape, _, _, edge, _) = segment();
    let before = counts(&shape);
    assert_eq!(
        shape.add_cycle(Cycle { edges: vec![edge, foreign] }),
        Err(ValidationError::MissingReference),
    );
    assert_eq!(counts(&shape), before);
}

#[test]
fn face_with_a_surface_or_a_cycle_of_another_shape_is_refused() {
    let (mut other, _, _, other_edge, _) = segment();
    let foreign_surface = other.add_surface(Surface::x_y_plane());
    let foreign_cycle = other.add_cycle(Cycle { edges: vec![other_edge] }).unwrap();

    let (mut shape, _, _, edge, _) = segment();
    let surface = shape.add_surface(Surface::x_y_plane());
    let cycle = shape.add_cycle(Cycle { edges: vec![edge] }).unwrap();
    let before = counts(&shape);
    assert_eq!(
        shape.add_face(Face::Face {
            surface: foreign_surface,
            cycles: vec![cycle],
            color: [0, 0, 0, 0],
        }),
        Err(ValidationError::MissingReference),
    );
    assert_eq!(
        shape.add_face(Face::Face {
            surface,
            cycles: vec![cycle, foreign_cycle],
            color: [0, 0, 0, 0],
        }),
        Err(ValidationError::MissingReference),
    );
    assert_eq!(counts(&shape), before);
    assert!(shape
        .add_face(Face::Face { surface, cycles: vec![cycle], color: [0, 0, 0, 0] })
        .is_ok());
}

#[test]
fn cycle_of_several_edges_with_a_continuous_one_is_refused() {
    let (mut shape, _, _, edge, continuous) = segment();
    let before = counts(&shape);
    assert_eq!(
        shape.add_cycle(Cycle { edges: vec![edge, continuous] }),
        Err(ValidationError::MixedCycle),
    );
    assert_eq!(
        shape.add_cycle(Cycle { edges: vec![continuous, continuous] }),
        Err(ValidationError::MixedCycle),
    );
    assert_eq!(counts(&shape), before);
}

#[test]
fn a_missing_edge_is_reported_before_a_continuous_one() {
    let (_, _, _, foreign, _) = segment();
    let (mut shape, _, _, _, continuous) = segment();
    assert_eq!(
        shape.add_cycle(Cycle { edges: vec![continuous, foreign] }),
        Err(ValidationError::MissingReference),
    );
}

#[test]
fn cycles_of_one_kind_are_accepted() {
    let (mut shape, _, _, edge, continuous) = segment();
    assert!(shape.add_cycle(Cycle { edges: vec![] }).is_ok());
    assert!(shape.add_cycle(Cycle { edges: vec![continuous] }).is_ok());
    assert!(shape.add_cycle(Cycle { edges: vec![edge] }).is_ok());
    assert!(shape.add_cycle(Cycle { edges: vec![edge, edge, edge] }).is_ok());
    assert_eq!(shape.cycles().len(), 4);
}

#[test]
fn errors_say_what_went_wrong() {
    assert_eq!(
        ValidationError::MissingReference.message(),
        "object refers to something that the shape does not hold",
    );
    assert_eq!(
        ValidationError::MixedCycle.message(),
        "cycle of several edges holds an edge without vertices",
    );
}

#[test]
fn handles_are_compared_by_shape_and_place() {
    let (shape, curve, [a, b], _, _) = segment();
    assert!(a.same_as(&a.clone()));
    assert!(!a.same_as(&b));
    let (_, other_curve, _, _, _) = segment();
    assert_eq!(curve.index, other_curve.index);
    assert!(!curve.same_as(&other_curve));
    assert_eq!(curve.shape, shape.id());
}

#[test]
fn face_looks_up_its_surface_and_cycles() {
    let (mut shape, _, _, edge, continuous) = segment();
    let surface = shape.add_surface(Surface::x_y_plane());
    let first = shape.add_cycle(Cycle { edges: vec![edge, edge] }).unwrap();
    let second = shape.add_cycle(Cycle { edges: vec![continuous] }).unwrap();
    let face = Face::Face { surface, cycles: vec![second, first], color: [0, 0, 0, 0] };
    assert_eq!(face.surface(&shape), Surface::x_y_plane());
    assert_eq!(
        face.cycles(&shape),
        vec![Cycle { edges: vec![continuous] }, Cycle { edges: vec![edge, edge] }],
    );
    assert!(!shape.edge(&edge).unwrap().is_continuous());
    assert!(shape.edge(&continuous).unwrap().is_continuous());
    assert_eq!(shape.cycle(&first).unwrap().duplicate(), Cycle { edges: vec![edge, edge] });
}
