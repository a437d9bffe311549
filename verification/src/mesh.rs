//! Triangle meshes: triangles over a list of vertices in which no vertex
//! occurs twice.

use vstd::prelude::*;

use crate::math::Point;
use crate::topology::Triangle;

verus! {

/// The place of a vertex in a mesh.
pub type Index = u32;

/// A triangle mesh.
///
/// Each triangle is three places in the list of vertices. A point that is
/// added again is found in the list, so that triangles which meet at a point
/// refer to the same vertex.
pub struct Mesh<const D: usize> {
    vertices: Vec<Point<D>>,
    triangles: Vec<[Index; 3]>,
}

/// Whether `place` is where the point is found in the list: the first place
/// that holds the same numbers, or the end of the list if none does.
pub open spec fn found_at<const D: usize>(
    vertices: Seq<Point<D>>,
    point: Point<D>,
    place: int,
) -> bool {
    &&& 0 <= place <= vertices.len()
    &&& forall|i: int| 0 <= i < place ==> !(#[trigger] vertices[i]).same(&point)
    &&& place < vertices.len() ==> vertices[place].same(&point)
}

/// The list with the point in it: the list itself where the point is found
/// at `place`, else the list with the point at its end.
pub open spec fn with_point<const D: usize>(
    vertices: Seq<Point<D>>,
    point: Point<D>,
    place: int,
) -> Seq<Point<D>> {
    if place < vertices.len() {
        vertices
    } else {
        vertices.push(point)
    }
}

impl<const D: usize> Mesh<D> {
    /// The vertices, in the order in which they were first added.
    pub closed spec fn points(&self) -> Seq<Point<D>> {
        self.vertices@
    }

    /// The triangles, each as the places of its three corners, in the order
    /// in which they were added.
    pub closed spec fn corners(&self) -> Seq<[Index; 3]> {
        self.triangles@
    }

    /// Whether no vertex occurs twice in the list of vertices, every corner of
    /// every triangle is a place in that list, and the list can be counted by
    /// an index.
    pub open spec fn wf(&self) -> bool {
        &&& self.points().len() <= Index::MAX
        &&& forall|i: int, j: int|
            #![trigger self.points()[i], self.points()[j]]
            0 <= i < j < self.points().len() ==> !self.points()[i].same(&self.points()[j])
        &&& forall|t: int, k: int|
            0 <= t < self.corners().len() && 0 <= k < 3 ==> (#[trigger] self.corners()[t][k])
                < self.points().len()
    }

    /// Creates an empty triangle mesh.
    pub fn new() -> (r: Self)
        ensures
            r.points().len() == 0,
            r.corners().len() == 0,
            r.wf(),
    {
        Mesh { vertices: Vec::new(), triangles: Vec::new() }
    }

    /// The place of the point in the list of vertices, where it is put at the
    /// end if it is not there yet.
    fn index_for_vertex(&mut self, point: Point<D>) -> (place: Index)
        requires
            old(self).points().len() < Index::MAX,
        ensures
            old(self).wf() ==> final(self).wf(),
            found_at(old(self).points(), point, place as int),
            final(self).points() == with_point(old(self).points(), point, place as int),
            final(self).corners() == old(self).corners(),
            place < final(self).points().len(),
    {
        let mut i: usize = 0;
        while i < self.vertices.len()
            invariant
                0 <= i <= self.vertices.len(),
                *self == *old(self),
                self.vertices@.len() < Index::MAX,
                forall|j: int| 0 <= j < i ==> !(#[trigger] self.vertices@[j]).same(&point),
            decreases self.vertices.len() - i,
        {
            if self.vertices[i].same_as(&point) {
                return i as Index;
            }
            i += 1;
        }
        self.vertices.push(point);
        proof {
            if old(self).wf() {
                assert forall|a: int, b: int|
                    #![trigger self.points()[a], self.points()[b]]
                    0 <= a < b < self.points().len() implies !self.points()[a].same(
                    &self.points()[b],
                ) by {
                    if b < old(self).points().len() {
                        assert(!old(self).points()[a].same(&old(self).points()[b]));
                    } else {
                        assert(!old(self).vertices@[a].same(&point));
                    }
                }
                assert forall|t: int, k: int|
                    0 <= t < self.corners().len() && 0 <= k < 3 implies (
                #[trigger] self.corners()[t][k]) < self.points().len() by {
                    assert(old(self).corners()[t][k] < old(self).points().len());
                }
            }
        }
        i as Index
    }

    /// Adds a triangle to the mesh.
    ///
    /// Its corners are looked up in the list of vertices one after the other,
    /// and put at the end of the list where they are not found.
    pub fn triangle(&mut self, triangle: Triangle<D>)
        requires
            old(self).wf(),
            old(self).points().len() + 3 <= Index::MAX,
        ensures
            final(self).wf(),
            final(self).corners().len() == old(self).corners().len() + 1,
            final(self).corners().drop_last() == old(self).corners(),
            ({
                let corners = final(self).corners().last();
                let first = with_point(old(self).points(), triangle.points[0], corners[0] as int);
                let second = with_point(first, triangle.points[1], corners[1] as int);
                let third = with_point(second, triangle.points[2], corners[2] as int);
                &&& found_at(old(self).points(), triangle.points[0], corners[0] as int)
                &&& found_at(first, triangle.points[1], corners[1] as int)
                &&& found_at(second, triangle.points[2], corners[2] as int)
                &&& final(self).points() == third
            }),
    {
        let points = triangle.points();
        let i0: Index = self.index_for_vertex(points[0]);
        let i1: Index = self.index_for_vertex(points[1]);
        let i2: Index = self.index_for_vertex(points[2]);
        let ghost before = self.triangles@;
        let ghost held = self.vertices@;
        assert(self.wf());
        self.triangles.push([i0, i1, i2]);
        proof {
            assert(self.triangles@.drop_last() =~= before);
            assert forall|t: int, k: int|
                0 <= t < self.corners().len() && 0 <= k < 3 implies (
            #[trigger] self.corners()[t][k]) < self.points().len() by {
                if t < before.len() {
                    assert(before[t][k] < held.len());
                }
            }
        }
    }

    /// All vertices, in the order in which they were first added.
    pub fn vertices(&self) -> (r: Vec<Point<D>>)
        ensures
            r@ == self.points(),
    {
        let mut r: Vec<Point<D>> = Vec::new();
        let mut i: usize = 0;
        while i < self.vertices.len()
            invariant
                0 <= i <= self.vertices.len(),
                r@ == self.vertices@.take(i as int),
            decreases self.vertices.len() - i,
        {
            r.push(self.vertices[i]);
            assert(r@ =~= self.vertices@.take(i + 1));
            i += 1;
        }
        assert(self.vertices@.take(self.vertices@.len() as int) =~= self.vertices@);
        r
    }

    /// All indices: the three corners of the first triangle, then those of
    /// the second, and so on.
    pub fn indices(&self) -> (r: Vec<Index>)
        ensures
            r@.len() == 3 * self.corners().len(),
            forall|t: int, k: int|
                0 <= t < self.corners().len() && 0 <= k < 3 ==> r@[3 * t + k]
                    == #[trigger] self.corners()[t][k],
    {
        let mut r: Vec<Index> = Vec::new();
        let mut t: usize = 0;
        while t < self.triangles.len()
            invariant
                0 <= t <= self.triangles.len(),
                r@.len() == 3 * t,
                forall|u: int, k: int|
                    0 <= u < t && 0 <= k < 3 ==> r@[3 * u + k] == #[trigger] self.triangles@[u][k],
            decreases self.triangles.len() - t,
        {
            let corners: [Index; 3] = self.triangles[t];
            r.push(corners[0]);
            r.push(corners[1]);
            r.push(corners[2]);
            t += 1;
        }
        r
    }

    /// The vertices that make up each triangle.
    pub fn triangle_vertices(&self) -> (r: Vec<[Point<D>; 3]>)
        requires
            self.wf(),
        ensures
            r@.len() == self.corners().len(),
            forall|t: int, k: int|
                0 <= t < self.corners().len() && 0 <= k < 3 ==> (#[trigger] r@[t][k])
                    == self.points()[self.corners()[t][k] as int],
    {
        let mut r: Vec<[Point<D>; 3]> = Vec::new();
        let mut t: usize = 0;
        while t < self.triangles.len()
            invariant
                0 <= t <= self.triangles.len(),
                self.wf(),
                r@.len() == t,
                forall|u: int, k: int|
                    0 <= u < t && 0 <= k < 3 ==> (#[trigger] r@[u][k])
                        == self.vertices@[self.triangles@[u][k] as int],
            decreases self.triangles.len() - t,
        {
            let corners: [Index; 3] = self.triangles[t];
            assert(self.corners()[t as int][0] < self.points().len());
            assert(self.corners()[t as int][1] < self.points().len());
            assert(self.corners()[t as int][2] < self.points().len());
            let a: Point<D> = self.vertices[corners[0] as usize];
            let b: Point<D> = self.vertices[corners[1] as usize];
            let c: Point<D> = self.vertices[corners[2] as usize];
            r.push([a, b, c]);
            t += 1;
        }
        r
    }

    /// The indices that make up each triangle.
    pub fn triangle_indices(&self) -> (r: Vec<[Index; 3]>)
        ensures
            r@ == self.corners(),
    {
        let mut r: Vec<[Index; 3]> = Vec::new();
        let mut t: usize = 0;
        while t < self.triangles.len()
            invariant
                0 <= t <= self.triangles.len(),
                r@ == self.triangles@.take(t as int),
            decreases self.triangles.len() - t,
        {
            r.push(self.triangles[t]);
            assert(r@ =~= self.triangles@.take(t + 1));
            t += 1;
        }
        assert(self.triangles@.take(self.triangles@.len() as int) =~= self.triangles@);
        r
    }
}

} // verus!
