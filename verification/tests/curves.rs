use fj_kernel::geometry::curve::{can_project, project};
use fj_kernel::geometry::{Curve, Line};
use fj_kernel::math::{Point, Vector};

fn scalar(value: f64) -> fj_math::Scalar {
    fj_math::Scalar::from_f64(value)
}

fn point<const D: usize>(coords: [f64; D]) -> Point<D> {
    Point::new(coords.map(scalar))
}

fn vector<const D: usize>(components: [f64; D]) -> Vector<D> {
    Vector::new(components.map(scalar))
}

fn line() -> Line {
    Line { origin: point([1., 0., 0.]), direction: vector([0., 2., 0.]) }
}

#[test]
fn line_maps_parameters_to_points_and_back() {
    let line = line();
    for t in [-3., -1., 0., 0.25, 1., 2., 1024.] {
        let on_line = line.point_curve_to_model(&point([t]));
        assert_eq!(on_line, point([1., 2. * t, 0.]));
        assert_eq!(line.point_model_to_curve(&on_line), point([t]));
        assert_eq!(line.point_curve_to_model(&line.point_model_to_curve(&on_line)), on_line);
    }
}

#[test]
fn line_maps_other_points_to_the_nearest_parameter() {
    assert_eq!(line().point_model_to_curve(&point([5., 3., -2.])), point([1.5]));
}

#[test]
fn line_scales_its_direction() {
    assert_eq!(line().vector_curve_to_model(&vector([1.5])), vector([0., 3., 0.]));
    assert_eq!(Curve::Line(line()).vector_curve_to_model(&vector([-1.])), vector([0., -2., 0.]));
}

#[test]
fn line_from_points_reaches_the_second_point_at_one() {
    let line = Line::from_points(point([1., 2., 3.]), point([2., 4., 6.]));
    assert_eq!(line, Line { origin: point([1., 2., 3.]), direction: vector([1., 2., 3.]) });
    assert_eq!(line.point_curve_to_model(&point([1.])), point([2., 4., 6.]));
}

#[test]
fn curve_forwards_to_its_line() {
    let curve = Curve::Line(line());
    assert_eq!(curve.origin(), point([1., 0., 0.]));
    assert_eq!(curve.point_curve_to_model(&point([2.])), point([1., 4., 0.]));
    assert_eq!(curve.point_model_to_curve(&point([1., 4., 0.])), point([2.]));
    assert_eq!(curve.try_point_model_to_curve(&point([1., 4., 0.])), Some(point([2.])));
    assert!(curve.is_bounded());
    assert!(curve.is_direction_bounded());
    assert!(curve.same_as(&Curve::Line(line())));
    assert!(curve.approx(scalar(0.1)).is_empty());
}

#[test]
fn line_without_direction_maps_no_point() {
    let stuck = Line { origin: point([1., 0., 0.]), direction: vector([0., 0., 0.]) };
    assert!(!can_project(&point([1., 4., 0.]), &stuck.origin, &stuck.direction));
    assert_eq!(stuck.try_point_model_to_curve(&point([1., 4., 0.])), None);
    assert_eq!(Curve::Line(stuck).try_point_model_to_curve(&point([1., 4., 0.])), None);
}

#[test]
fn line_with_a_direction_too_short_to_measure_maps_no_point() {
    let tiny = Line { origin: point([1., 0., 0.]), direction: vector([0., 1e-200, 0.]) };
    assert_eq!(tiny.try_point_model_to_curve(&point([1., 4., 0.])), None);
}

#[test]
fn unbounded_points_are_not_projected() {
    let line = line();
    assert!(!can_project(&point([1e200, 0., 0.]), &line.origin, &line.direction));
    assert!(!can_project(&point([f64::INFINITY, 0., 0.]), &line.origin, &line.direction));
    assert!(!can_project(&point([1., 0., 0.]), &line.origin, &vector([0., 1e200, 0.])));
    assert!(can_project(&point([1., 1., 0.]), &line.origin, &line.direction));
    assert!(!can_project(&point([1., 1., 0.]), &point([-1e200, 0., 0.]), &line.direction));
}

#[test]
fn projection_divides_by_the_length_of_the_direction() {
    let t = project(&point([1., 1., 1.]), &point([0., 0., 0.]), &vector([0., 0., 4.]));
    assert_eq!(t, scalar(0.25));
    let t = project(&point([4., 7., 1.]), &point([1., 3., 1.]), &vector([3., 4., 0.]));
    assert!((t.into_f64() - 1.).abs() < 1e-15);
}

#[test]
fn line_transform_moves_origin_and_turns_direction() {
    let moved = line().transform(&fj_math::Transform::translation([1., 2., 3.]));
    assert_eq!(moved, Line { origin: point([2., 2., 3.]), direction: vector([0., 2., 0.]) });
    let moved = Curve::Line(line()).transform(&fj_math::Transform::translation([0., 0., -1.]));
    assert_eq!(
        moved,
        Curve::Line(Line { origin: point([1., 0., -1.]), direction: vector([0., 2., 0.]) }),
    );
    let transform = fj_math::Transform::translation([1., 2., 3.])
        * fj_math::Transform::rotation([0., 0., std::f64::consts::FRAC_PI_2]);
    let turned = line().transform(&transform);
    let expected = [1., 3., 3., -2., 0., 0.];
    let found = [turned.origin.coords, turned.direction.components];
    for (value, wanted) in found.iter().flatten().zip(expected) {
        assert!((value.into_f64() - wanted).abs() < 1e-12);
    }
}

#[test]
fn lines_are_compared_by_their_numbers() {
    assert!(line().same_as(&line()));
    assert!(!line().same_as(&Line { origin: point([1., 0., 1.]), ..line() }));
    assert!(!line().same_as(&Line { direction: vector([0., 2., 1.]), ..line() }));
    assert!(line().is_bounded());
    assert!(!Line { origin: point([1., 0., 1e180]), ..line() }.is_bounded());
}
