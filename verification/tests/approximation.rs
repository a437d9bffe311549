use fj_kernel::algorithms::approximate_cycle;
use fj_kernel::geometry;
use fj_kernel::geometry::{Curve, Line};
use fj_kernel::math::{Point, Vector};
use fj_kernel::shape::{Handle, Shape};
use fj_kernel::topology::{Cycle, Edge, Vertex};

fn scalar(value: f64) -> fj_math::Scalar {
    fj_math::Scalar::from_f64(value)
}

fn point(coords: [f64; 3]) -> Point<3> {
    Point::new(coords.map(scalar))
}

fn vector(components: [f64; 3]) -> Vector<3> {
    Vector::new(components.map(scalar))
}

fn add_vertex(shape: &mut Shape, coords: [f64; 3]) -> Handle<Vertex<3>> {
    shape.add_vertex(Vertex::new(geometry::Point::from_model(point(coords)))).unwrap()
}

fn add_segment(shape: &mut Shape, ends: [Handle<Vertex<3>>; 2]) -> Handle<Edge> {
    let a = shape.vertex(&ends[0]).unwrap().point().canonical();
    let b = shape.vertex(&ends[1]).unwrap().point().canonical();
    let curve = shape.add_curve(Curve::Line(Line::from_points(a, b)));
    shape.add_edge(Edge { curve, vertices: Some(ends) }).unwrap()
}

fn triangle() -> (Shape, Cycle) {
    let mut shape = Shape::new();
    let a = add_vertex(&mut shape, [0., 0., 0.]);
    let b = add_vertex(&mut shape, [1., 0., 0.]);
    let c = add_vertex(&mut shape, [0., 1., 0.]);
    let ab = add_segment(&mut shape, [a, b]);
    let bc = add_segment(&mut shape, [b, c]);
    let ca = add_segment(&mut shape, [c, a]);
    (shape, Cycle { edges: vec![ab, bc, ca] })
}

#[test]
fn approximation_of_a_polygon_is_its_corners_and_the_first_again() {
    let (shape, cycle) = triangle();
    assert_eq!(
        approximate_cycle(&shape, &cycle, scalar(1.)),
        vec![point([0., 0., 0.]), point([1., 0., 0.]), point([0., 1., 0.]), point([0., 0., 0.])],
    );
}

#[test]
fn approximation_is_the_same_every_time() {
    let (shape, cycle) = triangle();
    let first = approximate_cycle(&shape, &cycle, scalar(0.25));
    let second = approximate_cycle(&shape, &cycle, scalar(0.25));
    assert_eq!(first, second);
}

#[test]
fn finer_tolerance_gives_no_fewer_points() {
    let (shape, cycle) = triangle();
    let coarse = approximate_cycle(&shape, &cycle, scalar(10.));
    let fine = approximate_cycle(&shape, &cycle, scalar(0.001));
    let finest = approximate_cycle(&shape, &cycle, scalar(0.));
    assert!(fine.len() >= coarse.len());
    assert!(finest.len() >= fine.len());
}

#[test]
fn approximation_keeps_points_that_do_not_repeat_the_one_before() {
    let mut shape = Shape::new();
    let a = add_vertex(&mut shape, [0., 0., 0.]);
    let b = add_vertex(&mut shape, [1., 0., 0.]);
    let c = add_vertex(&mut shape, [5., 5., 5.]);
    let ab = add_segment(&mut shape, [a, b]);
    let ca = add_segment(&mut shape, [c, a]);
    let open = Cycle { edges: vec![ab, ca] };
    assert_eq!(
        approximate_cycle(&shape, &open, scalar(1.)),
        vec![point([0., 0., 0.]), point([1., 0., 0.]), point([5., 5., 5.]), point([0., 0., 0.])],
    );
}

#[test]
fn approximation_takes_zeros_of_either_sign_for_the_same() {
    let mut shape = Shape::new();
    let a = add_vertex(&mut shape, [1., 0., 0.]);
    let b = add_vertex(&mut shape, [0., 0., 0.]);
    let c = add_vertex(&mut shape, [-0., 0., -0.]);
    let d = add_vertex(&mut shape, [2., 0., 0.]);
    let ab = add_segment(&mut shape, [a, b]);
    let cd = add_segment(&mut shape, [c, d]);
    let chain = Cycle { edges: vec![ab, cd] };
    let points = approximate_cycle(&shape, &chain, scalar(1.));
    assert_eq!(points.len(), 3);
    assert_eq!(points[1].coords[0].into_f64().to_bits(), 0f64.to_bits());
}

#[test]
fn approximation_of_a_single_edge_is_its_two_vertices() {
    let mut shape = Shape::new();
    let a = add_vertex(&mut shape, [0., 0., 0.]);
    let b = add_vertex(&mut shape, [1., 0., 0.]);
    let ab = add_segment(&mut shape, [a, b]);
    assert_eq!(
        approximate_cycle(&shape, &Cycle { edges: vec![ab] }, scalar(1.)),
        vec![point([0., 0., 0.]), point([1., 0., 0.])],
    );
}

#[test]
fn approximation_of_a_continuous_line_has_no_points() {
    let mut shape = Shape::new();
    let curve = shape.add_curve(Curve::Line(Line {
        origin: point([0., 0., 0.]),
        direction: vector([1., 0., 0.]),
    }));
    let edge = shape.add_edge(Edge { curve, vertices: None }).unwrap();
    assert!(approximate_cycle(&shape, &Cycle { edges: vec![edge] }, scalar(1.)).is_empty());
    assert!(approximate_cycle(&shape, &Cycle { edges: vec![] }, scalar(1.)).is_empty());
}
