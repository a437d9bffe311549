use fj_kernel::algorithms::sweep::{wall_triangles, Relation};
use fj_kernel::algorithms::{can_sweep, sweep_shape, try_sweep_shape};
use fj_kernel::geometry;
use fj_kernel::geometry::{Curve, Line, Surface, SweptCurve};
use fj_kernel::math::{Point, Vector};
use fj_kernel::shape::{Handle, Shape};
use fj_kernel::topology::{faces_same, Cycle, Edge, Face, Triangle as ColoredTriangle, Vertex};

fn scalar(value: f64) -> fj_math::Scalar {
    fj_math::Scalar::from_f64(value)
}

fn point(coords: [f64; 3]) -> Point<3> {
    Point::new(coords.map(scalar))
}

fn vector(components: [f64; 3]) -> Vector<3> {
    Vector::new(components.map(scalar))
}

fn line_segment(shape: &mut Shape, ends: [Handle<Vertex<3>>; 2]) -> Handle<Edge> {
    let a = shape.vertex(&ends[0]).unwrap().point().canonical();
    let b = shape.vertex(&ends[1]).unwrap().point().canonical();
    let curve = shape.add_curve(Curve::Line(Line::from_points(a, b)));
    shape.add_edge(Edge { curve, vertices: Some(ends) }).unwrap()
}

struct Triangle {
    shape: Shape,
    face: Handle<Face>,
}

impl Triangle {
    fn new(corners: [[f64; 3]; 3]) -> Self {
        let mut shape = Shape::new();
        let [a, b, c] = corners.map(point);

        let va = shape.add_vertex(Vertex::new(geometry::Point::from_model(a))).unwrap();
        let vb = shape.add_vertex(Vertex::new(geometry::Point::from_model(b))).unwrap();
        let vc = shape.add_vertex(Vertex::new(geometry::Point::from_model(c))).unwrap();

        let ab = line_segment(&mut shape, [va, vb]);
        let bc = line_segment(&mut shape, [vb, vc]);
        let ca = line_segment(&mut shape, [vc, va]);

        let cycles = shape.add_cycle(Cycle { edges: vec![ab, bc, ca] }).unwrap();

        let surface =
            shape.add_surface(Surface::SweptCurve(SweptCurve::plane_from_points([a, b, c])));
        let abc = Face::Face { surface, cycles: vec![cycles], color: [255, 0, 0, 255] };

        let face = shape.add_face(abc).unwrap();

        Self { shape, face }
    }
}

fn circle_like() -> Shape {
    let mut shape = Shape::new();
    let curve = shape.add_curve(Curve::Line(Line {
        origin: point([0., 0., 0.]),
        direction: vector([1., 0., 0.]),
    }));
    let edge = shape.add_edge(Edge { curve, vertices: None }).unwrap();
    let cycle = shape.add_cycle(Cycle { edges: vec![edge] }).unwrap();
    let surface = shape.add_surface(Surface::x_y_plane());
    shape
        .add_face(Face::Face { surface, cycles: vec![cycle], color: [1, 2, 3, 4] })
        .unwrap();
    shape
}

#[test]
fn sweep() {
    let sketch = Triangle::new([[0., 0., 0.], [1., 0., 0.], [0., 1., 0.]]);

    let swept =
        sweep_shape(&sketch.shape, vector([0., 0., 1.]), scalar(0.), [255, 0, 0, 255]);

    let bottom_face = sketch.shape.face(&sketch.face).unwrap().clone();
    let top = Triangle::new([[0., 0., 1.], [1., 0., 1.], [0., 1., 1.]]);
    let top_face = top.shape.face(&top.face).unwrap().clone();

    let mut contains_bottom_face = false;
    let mut contains_top_face = false;

    for handle in swept.faces() {
        let face = swept.face(&handle).unwrap();
        if matches!(face, Face::Face { .. }) {
            if faces_same(&swept, face, &sketch.shape, &bottom_face) {
                contains_bottom_face = true;
            }
            if faces_same(&swept, face, &top.shape, &top_face) {
                contains_top_face = true;
            }
        }
    }

    assert!(contains_bottom_face);
    assert!(contains_top_face);
}

#[test]
fn sweep_by_nothing_keeps_both_caps_on_the_source() {
    let sketch = Triangle::new([[0., 0., 0.], [1., 0., 0.], [0., 1., 0.]]);
    let swept = sweep_shape(&sketch.shape, vector([0., 0., 0.]), scalar(0.), [0, 0, 0, 0]);
    let source = sketch.shape.face(&sketch.face).unwrap();
    let faces = swept.faces();
    assert!(faces_same(&swept, swept.face(&faces[0]).unwrap(), &sketch.shape, source));
    assert!(faces_same(&swept, swept.face(&faces[1]).unwrap(), &sketch.shape, source));
}

#[test]
fn sweep_of_a_triangle_has_the_expected_objects() {
    let sketch = Triangle::new([[0., 0., 0.], [1., 0., 0.], [0., 1., 0.]]);
    let swept = sweep_shape(&sketch.shape, vector([0., 0., 2.]), scalar(0.), [9, 8, 7, 6]);

    assert_eq!(swept.points().len(), 0);
    assert_eq!(swept.vertices().len(), 6);
    assert_eq!(swept.curves().len(), 6 + 3);
    assert_eq!(swept.edges().len(), 6 + 3);
    assert_eq!(swept.cycles().len(), 2 + 3);
    assert_eq!(swept.surfaces().len(), 2 + 3);
    assert_eq!(swept.faces().len(), 2 + 3);
}

#[test]
fn sweep_puts_each_vertex_below_its_raised_copy() {
    let sketch = Triangle::new([[0., 0., 0.], [1., 0., 0.], [0., 1., 0.]]);
    let swept = sweep_shape(&sketch.shape, vector([0.5, 0., 2.]), scalar(0.), [9, 8, 7, 6]);
    let vertices = swept.vertices();
    let expected = [
        [0., 0., 0.],
        [0.5, 0., 2.],
        [1., 0., 0.],
        [1.5, 0., 2.],
        [0., 1., 0.],
        [0.5, 1., 2.],
    ];
    for (handle, coords) in vertices.iter().zip(expected) {
        let vertex = swept.vertex(handle).unwrap();
        assert_eq!(vertex.point().canonical(), point(coords));
        assert_eq!(vertex.point().native(), point(coords));
    }
}

#[test]
fn sweep_copies_and_translates_the_curves_of_edges() {
    let sketch = Triangle::new([[0., 0., 0.], [1., 0., 0.], [0., 1., 0.]]);
    let swept = sweep_shape(&sketch.shape, vector([0., 0., 3.]), scalar(0.), [9, 8, 7, 6]);
    let curves = swept.curves();
    assert_eq!(
        swept.curve(&curves[2]).unwrap(),
        Curve::Line(Line { origin: point([1., 0., 0.]), direction: vector([-1., 1., 0.]) }),
    );
    assert_eq!(
        swept.curve(&curves[3]).unwrap(),
        Curve::Line(Line { origin: point([1., 0., 3.]), direction: vector([-1., 1., 0.]) }),
    );
    let edges = swept.edges();
    let lower = swept.edge(&edges[2]).unwrap();
    let upper = swept.edge(&edges[3]).unwrap();
    assert_eq!(lower.curve, curves[2]);
    assert_eq!(upper.curve, curves[3]);
    let vertices = swept.vertices();
    assert_eq!(lower.vertices, Some([vertices[2], vertices[4]]));
    assert_eq!(upper.vertices, Some([vertices[3], vertices[5]]));
}

#[test]
fn sweep_translates_the_surface_of_the_top_cap() {
    let sketch = Triangle::new([[0., 0., 0.], [1., 0., 0.], [0., 1., 0.]]);
    let swept = sweep_shape(&sketch.shape, vector([0., 0., 3.]), scalar(0.), [9, 8, 7, 6]);
    let surfaces = swept.surfaces();
    assert_eq!(
        swept.surface(&surfaces[1]).unwrap(),
        Surface::SweptCurve(SweptCurve {
            curve: Curve::Line(Line {
                origin: point([0., 0., 3.]),
                direction: vector([1., 0., 0.]),
            }),
            path: vector([0., 1., 0.]),
        }),
    );
}

#[test]
fn sweep_gives_every_face_the_color() {
    let sketch = Triangle::new([[0., 0., 0.], [1., 0., 0.], [0., 1., 0.]]);
    let swept = sweep_shape(&sketch.shape, vector([0., 0., 2.]), scalar(0.), [9, 8, 7, 6]);
    for handle in swept.faces() {
        match swept.face(&handle).unwrap() {
            Face::Face { color, .. } => assert_eq!(*color, [9, 8, 7, 6]),
            Face::Triangles(_) => panic!("a triangle has no continuous edge"),
        }
    }
}

#[test]
fn sweep_of_a_polygon_shares_side_edges() {
    let sketch = Triangle::new([[0., 0., 0.], [1., 0., 0.], [0., 1., 0.]]);
    let swept = sweep_shape(&sketch.shape, vector([0., 0., 2.]), scalar(0.), [9, 8, 7, 6]);

    let edges = swept.edges();
    let cycles = swept.cycles();
    let faces = swept.faces();
    let side_faces = faces.len() - 2;
    let side_edges = edges.len() - 6;
    assert_eq!(side_faces, 3);
    assert!(side_edges <= 3);

    for m in 0..3 {
        let here = swept.cycle(&cycles[2 + m]).unwrap();
        let next = swept.cycle(&cycles[2 + (m + 1) % 3]).unwrap();
        assert_eq!(here.edges.len(), 4);
        assert_eq!(here.edges[0], edges[2 * m]);
        assert_eq!(here.edges[1], edges[2 * m + 1]);
        assert_eq!(here.edges[3], next.edges[2]);
        assert!(here.edges[2].index >= 6);
        assert!(here.edges[3].index >= 6);
    }

    let vertices = swept.vertices();
    let first_side = swept.edge(&edges[6]).unwrap();
    assert_eq!(first_side.vertices, Some([vertices[0], vertices[1]]));
    let second_side = swept.edge(&edges[7]).unwrap();
    assert_eq!(second_side.vertices, Some([vertices[2], vertices[3]]));
    let third_side = swept.edge(&edges[8]).unwrap();
    assert_eq!(third_side.vertices, Some([vertices[4], vertices[5]]));
}

#[test]
fn sweep_builds_side_faces_on_swept_curves() {
    let sketch = Triangle::new([[0., 0., 0.], [1., 0., 0.], [0., 1., 0.]]);
    let swept = sweep_shape(&sketch.shape, vector([0., 0., 2.]), scalar(0.), [9, 8, 7, 6]);
    let surfaces = swept.surfaces();
    let cycles = swept.cycles();
    let faces = swept.faces();
    assert_eq!(
        swept.surface(&surfaces[3]).unwrap(),
        Surface::SweptCurve(SweptCurve {
            curve: Curve::Line(Line {
                origin: point([1., 0., 0.]),
                direction: vector([-1., 1., 0.]),
            }),
            path: vector([0., 0., 2.]),
        }),
    );
    match swept.face(&faces[3]).unwrap() {
        Face::Face { surface, cycles: bounds, color } => {
            assert_eq!(*surface, surfaces[3]);
            assert_eq!(bounds, &vec![cycles[3]]);
            assert_eq!(*color, [9, 8, 7, 6]);
        }
        Face::Triangles(_) => panic!("a triangle has no continuous edge"),
    }
}

#[test]
fn sweep_of_a_continuous_edge_falls_back_to_triangles() {
    let source = circle_like();
    let swept = sweep_shape(&source, vector([0., 0., 1.]), scalar(0.5), [1, 2, 3, 4]);

    assert_eq!(swept.surfaces().len(), 2);
    assert_eq!(swept.cycles().len(), 2);
    assert_eq!(swept.edges().len(), 2);
    assert_eq!(swept.edge(&swept.edges()[0]).unwrap().vertices, None);
    assert_eq!(swept.edge(&swept.edges()[1]).unwrap().vertices, None);
    let faces = swept.faces();
    assert_eq!(faces.len(), 3);
    let mut triangle_faces = 0;
    for handle in &faces {
        if let Face::Triangles(triangles) = swept.face(handle).unwrap() {
            triangle_faces += 1;
            assert_eq!(triangles.len(), 0);
        }
    }
    assert_eq!(triangle_faces, 1);
    assert!(matches!(swept.face(&faces[2]).unwrap(), Face::Triangles(_)));
}

#[test]
fn wall_over_a_chain_has_two_triangles_for_each_step() {
    let chain = vec![point([0., 0., 0.]), point([1., 0., 0.]), point([1., 1., 0.])];
    let wall = wall_triangles(&chain, &vector([0., 0., 2.]), [5, 6, 7, 8]);
    assert_eq!(wall.len(), 2 * (chain.len() - 1));
    let expected = [
        [[0., 0., 0.], [1., 0., 0.], [1., 0., 2.]],
        [[0., 0., 0.], [1., 0., 2.], [0., 0., 2.]],
        [[1., 0., 0.], [1., 1., 0.], [1., 1., 2.]],
        [[1., 0., 0.], [1., 1., 2.], [1., 0., 2.]],
    ];
    for (triangle, corners) in wall.iter().zip(expected) {
        assert_eq!(*triangle, ColoredTriangle::new(corners.map(point), [5, 6, 7, 8]));
    }
}

#[test]
fn wall_over_less_than_two_points_is_empty() {
    assert_eq!(wall_triangles(&vec![], &vector([0., 0., 2.]), [5, 6, 7, 8]).len(), 0);
    assert_eq!(
        wall_triangles(&vec![point([3., 3., 3.])], &vector([0., 0., 2.]), [5, 6, 7, 8]).len(),
        0,
    );
}

#[test]
fn shapes_with_faces_of_triangles_cannot_be_swept() {
    let mut shape = Shape::new();
    shape.add_face(Face::Triangles(vec![])).unwrap();
    assert!(!can_sweep(&shape));
    assert!(try_sweep_shape(&shape, vector([0., 0., 1.]), scalar(0.), [0, 0, 0, 0]).is_none());
}

#[test]
fn shapes_with_unbounded_vertices_cannot_be_swept() {
    let mut shape = Shape::new();
    shape
        .add_vertex(Vertex::new(geometry::Point::from_model(point([1e200, 0., 0.]))))
        .unwrap();
    assert!(!can_sweep(&shape));
}

#[test]
fn sweeping_along_an_unbounded_path_is_refused() {
    let sketch = Triangle::new([[0., 0., 0.], [1., 0., 0.], [0., 1., 0.]]);
    assert!(can_sweep(&sketch.shape));
    assert!(
        try_sweep_shape(&sketch.shape, vector([0., 0., 1e200]), scalar(0.), [0, 0, 0, 0])
            .is_none()
    );
    let swept = try_sweep_shape(&sketch.shape, vector([0., 0., 1.]), scalar(0.), [0, 0, 0, 0]);
    assert_eq!(swept.unwrap().faces().len(), 5);
}

#[test]
fn relation_maps_the_parts_of_an_object() {
    let sketch = Triangle::new([[0., 0., 0.], [1., 0., 0.], [0., 1., 0.]]);
    let mut other = Shape::new();
    let mut relation = Relation::new();
    for handle in sketch.shape.vertices() {
        let vertex = sketch.shape.vertex(&handle).unwrap();
        relation.vertices.insert(handle.index, other.add_vertex(vertex).unwrap());
    }
    let edges = sketch.shape.edges();
    let edge = sketch.shape.edge(&edges[1]).unwrap();
    let copies = other.vertices();
    assert_eq!(relation.vertices_for_edge(&edge), Some([copies[1], copies[2]]));

    let curve = other.add_curve(sketch.shape.curve(&edge.curve).unwrap());
    let continuous = Edge { curve, vertices: None };
    assert_eq!(relation.vertices_for_edge(&continuous), None);

    for handle in &edges {
        let copy = other.add_edge(Edge { curve, vertices: None }).unwrap();
        relation.edges.insert(handle.index, copy);
    }
    let cycle = sketch.shape.cycle(&sketch.shape.cycles()[0]).unwrap();
    assert_eq!(relation.edges_for_cycle(cycle), other.edges());

    let cycle_copy = other.add_cycle(Cycle { edges: vec![other.edges()[0]] }).unwrap();
    relation.cycles.insert(0, cycle_copy);
    let face = sketch.shape.face(&sketch.face).unwrap();
    assert_eq!(relation.cycles_for_face(face), vec![cycle_copy]);
}
