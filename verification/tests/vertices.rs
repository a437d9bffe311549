use fj_kernel::geometry;
use fj_kernel::geometry::{Curve, Line};
use fj_kernel::math::{Point, Vector};
use fj_kernel::topology::{Vertex, Vertices};

fn scalar(value: f64) -> fj_math::Scalar {
    fj_math::Scalar::from_f64(value)
}

fn point<const D: usize>(coords: [f64; D]) -> Point<D> {
    Point::new(coords.map(scalar))
}

fn vector<const D: usize>(components: [f64; D]) -> Vector<D> {
    Vector::new(components.map(scalar))
}

fn curve() -> Curve {
    Curve::Line(Line { origin: point([1., 0., 0.]), direction: vector([0., 2., 0.]) })
}

#[test]
fn create_records_the_vertex() {
    let mut vertices = Vertices(Vec::new());
    let first = vertices.create(geometry::Point::from_model(point([1., 2., 3.])));
    let second = vertices.create(geometry::Point::from_model(point([4., 5., 6.])));
    assert_eq!(first, Vertex::new(geometry::Point::from_model(point([1., 2., 3.]))));
    assert_eq!(vertices.0, vec![first, second]);
}

#[test]
fn vertex_gives_back_its_point() {
    let at = geometry::Point::new(point([2.]), point([1., 4., 0.]));
    let vertex = Vertex::new(at);
    assert_eq!(vertex.point(), at);
    assert_eq!(vertex.point().native(), point([2.]));
    assert_eq!(vertex.point().canonical(), point([1., 4., 0.]));
}

#[test]
fn canonical_vertex_has_the_model_point_in_both_forms() {
    let vertex = Vertex::new(geometry::Point::new(point([2.]), point([1., 4., 0.])));
    assert_eq!(
        vertex.to_canonical(),
        Vertex::new(geometry::Point::new(point([1., 4., 0.]), point([1., 4., 0.]))),
    );
}

#[test]
fn transform_moves_the_canonical_form_only() {
    let vertex = Vertex::new(geometry::Point::new(point([2.]), point([1., 4., 0.])));
    let moved = vertex.transform(&fj_math::Transform::translation([1., 2., 3.]));
    assert_eq!(moved, Vertex::new(geometry::Point::new(point([2.]), point([2., 6., 3.]))));
}

#[test]
fn vertex_on_a_curve_has_its_parameter_as_native_form() {
    let vertex = Vertex::new(geometry::Point::from_model(point([1., 4., 0.])));
    assert_eq!(
        vertex.to_1d(&curve()),
        Vertex::new(geometry::Point::new(point([2.]), point([1., 4., 0.]))),
    );
    assert_eq!(vertex.try_to_1d(&curve()), Some(vertex.to_1d(&curve())));
    assert_eq!(vertex.to_1d(&curve()).to_canonical(), vertex);
}

#[test]
fn vertex_is_not_put_on_a_curve_without_direction() {
    let stuck = Curve::Line(Line { origin: point([1., 0., 0.]), direction: vector([0., 0., 0.]) });
    let vertex = Vertex::new(geometry::Point::from_model(point([1., 4., 0.])));
    assert_eq!(vertex.try_to_1d(&stuck), None);
}

#[test]
fn points_are_compared_in_both_forms() {
    let at = geometry::Point::new(point([2.]), point([1., 4., 0.]));
    assert!(at.same_as(&geometry::Point::new(point([2.]), point([1., 4., -0.]))));
    assert!(!at.same_as(&geometry::Point::new(point([3.]), point([1., 4., 0.]))));
    assert!(!at.same_as(&geometry::Point::new(point([2.]), point([1., 4., 1.]))));
    assert!(at.is_bounded());
    assert!(!geometry::Point::new(point([1e200]), point([1., 4., 0.])).is_bounded());
    assert!(!geometry::Point::new(point([2.]), point([1., 1e200, 0.])).is_bounded());
}
