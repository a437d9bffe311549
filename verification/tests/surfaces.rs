use fj_kernel::geometry::{Curve, Line, Surface, SweptCurve};
use fj_kernel::math::{Point, Vector};

fn scalar(value: f64) -> fj_math::Scalar {
    fj_math::Scalar::from_f64(value)
}

fn point<const D: usize>(coords: [f64; D]) -> Point<D> {
    Point::new(coords.map(scalar))
}

fn vector<const D: usize>(components: [f64; D]) -> Vector<D> {
    Vector::new(components.map(scalar))
}

fn swept_curve() -> SweptCurve {
    SweptCurve {
        curve: Curve::Line(Line {
            origin: point([1., 0., 0.]),
            direction: vector([0., 2., 0.]),
        }),
        path: vector([0., 0., 2.]),
    }
}

fn verify(swept: &SweptCurve, surface_point: Point<2>) {
    let point = swept.point_surface_to_model(&surface_point);
    let result = swept.point_model_to_surface(&point);

    assert_eq!(result, surface_point);
}

#[test]
fn point_model_to_surface() {
    let swept = swept_curve();

    verify(&swept, point([-1., -1.]));
    verify(&swept, point([0., 0.]));
    verify(&swept, point([1., 1.]));
    verify(&swept, point([2., 3.]));
}

#[test]
fn point_surface_to_model() {
    let swept = swept_curve();

    assert_eq!(swept.point_surface_to_model(&point([2., 4.])), point([1., 4., 8.]));
}

#[test]
fn vector_surface_to_model() {
    let swept = swept_curve();

    assert_eq!(swept.vector_surface_to_model(&vector([2., 4.])), vector([0., 4., 8.]));
}

#[test]
fn point_model_to_surface_projects_onto_curve_and_path() {
    let swept = swept_curve();
    assert_eq!(swept.point_model_to_surface(&point([1., 3., 5.])), point([1.5, 2.5]));
    assert_eq!(swept.point_model_to_surface(&point([7., 3., 5.])), point([1.5, 2.5]));
}

#[test]
fn surface_keeps_the_model_point_as_canonical_form() {
    let surface = Surface::SweptCurve(swept_curve());
    let mapped = surface.point_model_to_surface(point([1., 4., 8.]));
    assert_eq!(mapped.native(), point([2., 4.]));
    assert_eq!(mapped.canonical(), point([1., 4., 8.]));
    assert_eq!(surface.point_surface_to_model(&point([2., 4.])), point([1., 4., 8.]));
    assert_eq!(surface.vector_surface_to_model(&vector([2., 4.])), vector([0., 4., 8.]));
}

#[test]
fn surface_mappings_that_cannot_be_computed_give_nothing() {
    let flat = SweptCurve {
        curve: Curve::Line(Line {
            origin: point([1., 0., 0.]),
            direction: vector([0., 2., 0.]),
        }),
        path: vector([0., 0., 0.]),
    };
    assert_eq!(flat.try_point_model_to_surface(&point([1., 3., 5.])), None);
    assert_eq!(Surface::SweptCurve(flat).try_point_model_to_surface(point([1., 3., 5.])), None);

    let swept = swept_curve();
    assert_eq!(swept.try_point_model_to_surface(&point([1., 3., 5.])), Some(point([1.5, 2.5])));
    assert_eq!(swept.try_point_model_to_surface(&point([1e200, 3., 5.])), None);
    assert_eq!(swept.try_point_surface_to_model(&point([2., 4.])), Some(point([1., 4., 8.])));
    assert_eq!(swept.try_point_surface_to_model(&point([1e200, 4.])), None);
    assert_eq!(swept.try_point_surface_to_model(&point([1e140, 4.])), Some(point([1., 2e140, 8.])));
    assert_eq!(swept.try_vector_surface_to_model(&vector([2., 4.])), Some(vector([0., 4., 8.])));
    assert_eq!(swept.try_vector_surface_to_model(&vector([2., 1e200])), None);

    let surface = Surface::SweptCurve(swept);
    assert_eq!(surface.try_point_surface_to_model(&point([2., 4.])), Some(point([1., 4., 8.])));
    assert_eq!(surface.try_vector_surface_to_model(&vector([2., 4.])), Some(vector([0., 4., 8.])));
    assert_eq!(surface.try_point_model_to_surface(point([1., 4., 8.])).unwrap().native(), point([2., 4.]));
}

#[test]
fn points_far_out_on_a_surface_need_a_bounded_point_on_the_curve() {
    let steep = SweptCurve {
        curve: Curve::Line(Line {
            origin: point([1., 0., 0.]),
            direction: vector([0., 1e100, 0.]),
        }),
        path: vector([0., 0., 2.]),
    };
    assert!(steep.is_bounded());
    assert_eq!(steep.try_point_surface_to_model(&point([1e100, 1.])), None);
    assert_eq!(steep.try_vector_surface_to_model(&vector([1e100, 1.])), None);
    assert_eq!(
        steep.try_point_surface_to_model(&point([1e10, 1.])),
        Some(point([1., 1e110, 2.])),
    );
}

#[test]
fn x_y_plane_is_the_first_axis_swept_along_the_second() {
    assert_eq!(
        Surface::x_y_plane(),
        Surface::SweptCurve(SweptCurve {
            curve: Curve::Line(Line {
                origin: point([0., 0., 0.]),
                direction: vector([1., 0., 0.]),
            }),
            path: vector([0., 1., 0.]),
        }),
    );
    assert!(Surface::x_y_plane().is_bounded());
}

#[test]
fn plane_from_points_runs_from_the_first_point() {
    let plane = SweptCurve::plane_from_points([
        point([1., 1., 1.]),
        point([3., 1., 1.]),
        point([1., 1., 5.]),
    ]);
    assert_eq!(
        plane,
        SweptCurve {
            curve: Curve::Line(Line {
                origin: point([1., 1., 1.]),
                direction: vector([2., 0., 0.]),
            }),
            path: vector([0., 0., 4.]),
        },
    );
}

#[test]
fn transform_moves_curve_and_path() {
    let swept = swept_curve();
    let moved = swept.transform(&fj_math::Transform::translation([1., 2., 3.]));
    assert_eq!(
        moved,
        SweptCurve {
            curve: Curve::Line(Line {
                origin: point([2., 2., 3.]),
                direction: vector([0., 2., 0.]),
            }),
            path: vector([0., 0., 2.]),
        },
    );
    let turned = Surface::SweptCurve(swept).transform(&fj_math::Transform::rotation([
        0.,
        0.,
        std::f64::consts::PI,
    ]));
    let Surface::SweptCurve(turned) = turned;
    let Curve::Line(line) = turned.curve;
    let expected = [-1., 0., 0., 0., -2., 0., 0., 0., 2.];
    let found = [line.origin.coords, line.direction.components, turned.path.components];
    for (value, wanted) in found.iter().flatten().zip(expected) {
        assert!((value.into_f64() - wanted).abs() < 1e-12);
    }
}

#[test]
fn transforming_a_surface_commutes_with_mapping_a_point() {
    let swept = swept_curve();
    let transform = fj_math::Transform::translation([1., 2., 3.]);
    let moved = swept.transform(&transform);
    let mapped_then_moved = transform
        .transform_point(&fj_math::Point::from(swept.point_surface_to_model(&point([2., 4.])).coords));
    assert_eq!(
        moved.point_surface_to_model(&point([2., 4.])).coords,
        mapped_then_moved.coords.components,
    );
}

#[test]
fn same_as_compares_numbers() {
    let swept = swept_curve();
    assert!(swept.same_as(&swept_curve()));
    assert!(Surface::SweptCurve(swept).same_as(&Surface::SweptCurve(swept_curve())));
    let other = SweptCurve { path: vector([0., 0., 3.]), ..swept };
    assert!(!swept.same_as(&other));
    let negative_zero = SweptCurve { path: vector([-0., 0., 2.]), ..swept };
    assert!(swept.same_as(&negative_zero));
}
