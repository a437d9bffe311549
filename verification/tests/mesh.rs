use fj_kernel::math::Point;
use fj_kernel::mesh::Mesh;
use fj_kernel::topology::Triangle;

fn scalar(value: f64) -> fj_math::Scalar {
    fj_math::Scalar::from_f64(value)
}

fn point<const D: usize>(coords: [f64; D]) -> Point<D> {
    Point::new(coords.map(scalar))
}

fn triangle<const D: usize>(corners: [[f64; D]; 3]) -> Triangle<D> {
    Triangle::new(corners.map(point), [0, 0, 0, 255])
}

#[test]
fn new_mesh_is_empty() {
    let mesh = Mesh::<3>::new();
    assert!(mesh.vertices().is_empty());
    assert!(mesh.indices().is_empty());
    assert!(mesh.triangle_vertices().is_empty());
    assert!(mesh.triangle_indices().is_empty());
}

#[test]
fn triangle_adds_its_corners_in_order() {
    let mut mesh = Mesh::new();
    mesh.triangle(triangle([[0., 0., 0.], [1., 0., 0.], [0., 1., 0.]]));
    assert_eq!(
        mesh.vertices(),
        vec![point([0., 0., 0.]), point([1., 0., 0.]), point([0., 1., 0.])],
    );
    assert_eq!(mesh.indices(), vec![0, 1, 2]);
    assert_eq!(mesh.triangle_indices(), vec![[0, 1, 2]]);
    assert_eq!(
        mesh.triangle_vertices(),
        vec![[point([0., 0., 0.]), point([1., 0., 0.]), point([0., 1., 0.])]],
    );
}

#[test]
fn triangles_that_meet_share_vertices() {
    let mut mesh = Mesh::new();
    mesh.triangle(triangle([[0., 0., 0.], [1., 0., 0.], [0., 1., 0.]]));
    mesh.triangle(triangle([[1., 0., 0.], [1., 1., 0.], [0., 1., 0.]]));
    mesh.triangle(triangle([[1., 1., 0.], [-0., 0., 0.], [2., 2., 0.]]));
    assert_eq!(
        mesh.vertices(),
        vec![
            point([0., 0., 0.]),
            point([1., 0., 0.]),
            point([0., 1., 0.]),
            point([1., 1., 0.]),
            point([2., 2., 0.]),
        ],
    );
    assert_eq!(mesh.indices(), vec![0, 1, 2, 1, 3, 2, 3, 0, 4]);
    assert_eq!(mesh.triangle_indices(), vec![[0, 1, 2], [1, 3, 2], [3, 0, 4]]);
    assert_eq!(
        mesh.triangle_vertices()[2],
        [point([1., 1., 0.]), point([0., 0., 0.]), point([2., 2., 0.])],
    );
}

#[test]
fn corners_that_coincide_share_one_vertex() {
    let mut mesh = Mesh::new();
    mesh.triangle(triangle([[3., 4.], [3., 4.], [5., 6.]]));
    assert_eq!(mesh.vertices(), vec![point([3., 4.]), point([5., 6.])]);
    assert_eq!(mesh.triangle_indices(), vec![[0, 0, 1]]);
}

#[test]
fn triangle_keeps_its_corners_and_color() {
    let colored = Triangle::new([point([0.]), point([1.]), point([2.])], [1, 2, 3, 4]);
    assert_eq!(colored.points(), [point([0.]), point([1.]), point([2.])]);
    assert_eq!(colored.color, [1, 2, 3, 4]);
}
