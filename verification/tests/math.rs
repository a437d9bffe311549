use fj_kernel::math::scalar::{scalar_is_bounded, scalar_is_zero};
use fj_kernel::math::transform::transform_is_bounded;
use fj_kernel::math::{Point, Vector};

fn scalar(value: f64) -> fj_math::Scalar {
    fj_math::Scalar::from_f64(value)
}

fn point<const D: usize>(coords: [f64; D]) -> Point<D> {
    Point::new(coords.map(scalar))
}

fn vector<const D: usize>(components: [f64; D]) -> Vector<D> {
    Vector::new(components.map(scalar))
}

#[test]
fn scalars_below_two_to_the_five_hundred_are_bounded() {
    let limit = 2f64.powi(500);
    assert!(scalar_is_bounded(&scalar(0.)));
    assert!(scalar_is_bounded(&scalar(-0.)));
    assert!(scalar_is_bounded(&scalar(1.)));
    assert!(scalar_is_bounded(&scalar(-123456.789)));
    assert!(scalar_is_bounded(&scalar(f64::MIN_POSITIVE)));
    assert!(scalar_is_bounded(&scalar(5e-324)));
    assert!(scalar_is_bounded(&scalar(limit * (1. - f64::EPSILON))));
    assert!(scalar_is_bounded(&scalar(-limit * (1. - f64::EPSILON))));
    assert!(!scalar_is_bounded(&scalar(limit)));
    assert!(!scalar_is_bounded(&scalar(-limit)));
    assert!(!scalar_is_bounded(&scalar(f64::MAX)));
    assert!(!scalar_is_bounded(&scalar(f64::INFINITY)));
    assert!(!scalar_is_bounded(&scalar(f64::NEG_INFINITY)));
}

#[test]
fn zeros_of_either_sign_are_zero() {
    assert!(scalar_is_zero(&scalar(0.)));
    assert!(scalar_is_zero(&scalar(-0.)));
    assert!(!scalar_is_zero(&scalar(5e-324)));
    assert!(!scalar_is_zero(&scalar(-1.)));
    assert!(!scalar_is_zero(&scalar(f64::INFINITY)));
}

#[test]
fn points_and_vectors_are_bounded_when_all_their_numbers_are() {
    assert!(point([1., 2., 3.]).is_bounded());
    assert!(!point([1., 2., 1e200]).is_bounded());
    assert!(!point([1e200, 2., 3.]).is_bounded());
    assert!(vector([1., 2.]).is_bounded());
    assert!(!vector([1., f64::INFINITY]).is_bounded());
    assert!(point::<0>([]).is_bounded());
}

#[test]
fn points_and_vectors_are_the_same_when_all_their_numbers_are() {
    assert!(point([1., 2., 3.]).same_as(&point([1., 2., 3.])));
    assert!(!point([1., 2., 3.]).same_as(&point([1., 2., 4.])));
    assert!(!point([1., 2., 3.]).same_as(&point([0., 2., 3.])));
    assert!(point([0., -0.]).same_as(&point([-0., 0.])));
    assert!(vector([1., 2., 3.]).same_as(&vector([1., 2., 3.])));
    assert!(!vector([1., 2., 3.]).same_as(&vector([1., -2., 3.])));
    assert!(vector([f64::INFINITY]).same_as(&vector([f64::INFINITY])));
    assert!(!vector([f64::INFINITY]).same_as(&vector([f64::NEG_INFINITY])));
}

#[test]
fn surface_coordinates_give_their_first_as_a_curve_coordinate() {
    assert_eq!(point([2., 4.]).to_t(), point([2.]));
    assert_eq!(vector([2., 4.]).to_t(), vector([2.]));
    assert_eq!(Point::from_uv(scalar(3.), scalar(5.)), point([3., 5.]));
}

#[test]
fn transforms_are_bounded_when_all_their_entries_are() {
    assert!(transform_is_bounded(&fj_math::Transform::identity()));
    assert!(transform_is_bounded(&fj_math::Transform::translation([1., 2., 3.])));
    assert!(transform_is_bounded(&fj_math::Transform::rotation([0., 0., 1.])));
    assert!(!transform_is_bounded(&fj_math::Transform::translation([1., 1e200, 3.])));
}

#[test]
fn translation_is_the_identity_with_the_offset_in_its_last_column() {
    let transform = fj_math::Transform::translation([5., 6., 7.]);
    let entries: Vec<u64> = transform.data().iter().map(|entry| entry.to_bits()).collect();
    let expected = [1., 0., 0., 0., 0., 1., 0., 0., 0., 0., 1., 0., 5., 6., 7., 1.];
    assert_eq!(entries, expected.map(f64::to_bits));
}
