//! The hypercube with corners in {0, 1}^4, which is drawn by dropping the
//! fourth coordinate.

use crate::matrix::{on_unit_circle, rotated};
use crate::polytope::{move_vertices, positions, turn_vertices, vertex_positions, Motion};
use crate::vector::{fits, point, Point4, Vector3, Vector4};
use crate::{translated, GeometryError, Rotation, Vertex};
use vstd::prelude::*;

verus! {

/// The hypercube: sixteen vertices in a fixed order.
#[derive(Clone, Copy, Debug)]
pub struct HyperCube {
    vertices: [Vertex; 16],
}

/// The position that the vertex of the given number has at first. The lower
/// eight vertices have the fourth coordinate 0, the upper eight have 1; in
/// each eight the first four have the second coordinate 0, the last four have
/// 1; and each four walks round a unit square of the first and third
/// coordinates.
pub open spec fn unit_corner(i: int) -> Point4 {
    let j = i % 4;
    point(
        if j == 1 || j == 2 {
            1
        } else {
            0
        },
        (i / 4) % 2,
        j / 2,
        i / 8,
    )
}

impl View for HyperCube {
    type V = Seq<Point4>;

    closed spec fn view(&self) -> Seq<Point4> {
        positions(self.vertices)
    }
}

impl HyperCube {
    /// The hypercube with its corners in {0, 1}^4.
    pub fn new() -> (h: Self)
        ensures
            h@.len() == 16,
            forall|i: int| 0 <= i < 16 ==> #[trigger] h@[i] == unit_corner(i),
    {
        let vertices = [
            Vertex::new(0, 0, 0, 0),
            Vertex::new(1, 0, 0, 0),
            Vertex::new(1, 0, 1, 0),
            Vertex::new(0, 0, 1, 0),
            Vertex::new(0, 1, 0, 0),
            Vertex::new(1, 1, 0, 0),
            Vertex::new(1, 1, 1, 0),
            Vertex::new(0, 1, 1, 0),
            Vertex::new(0, 0, 0, 1),
            Vertex::new(1, 0, 0, 1),
            Vertex::new(1, 0, 1, 1),
            Vertex::new(0, 0, 1, 1),
            Vertex::new(0, 1, 0, 1),
            Vertex::new(1, 1, 0, 1),
            Vertex::new(1, 1, 1, 1),
            Vertex::new(0, 1, 1, 1),
        ];
        Self { vertices }
    }

    /// A hypercube has sixteen vertices, whatever was done to it.
    pub proof fn lemma_vertex_count(self)
        ensures
            self@.len() == 16,
    {
    }

    /// The positions of the vertices, in their order.
    pub fn positions(&self) -> (r: Vec<Vector4>)
        ensures
            r@.len() == 16,
            self@.len() == 16,
            forall|i: int| 0 <= i < 16 ==> #[trigger] r@[i]@ == self@[i],
    {
        vertex_positions(&self.vertices)
    }

    /// Turns every vertex in the given plane by the angle whose cosine and
    /// sine are `cos` and `sin`. A pair off the unit circle is no rotation
    /// and is refused; on the lattice the rotations are the quarter turns.
    /// Where the image of some vertex does not fit, no vertex moves.
    pub fn rotate(&mut self, plane: Rotation, cos: i32, sin: i32) -> (r: Result<(), GeometryError>)
        ensures
            final(self)@.len() == 16,
            r is Ok <==> on_unit_circle(cos as int, sin as int) && forall|i: int|
                0 <= i < 16 ==> fits(
                    rotated(plane, cos as int, sin as int, #[trigger] old(self)@[i]),
                ),
            r is Ok ==> forall|i: int|
                0 <= i < 16 ==> #[trigger] final(self)@[i] == rotated(
                    plane,
                    cos as int,
                    sin as int,
                    old(self)@[i],
                ),
            r matches Err(e) ==> final(self)@ == old(self)@ && e == (if on_unit_circle(
                cos as int,
                sin as int,
            ) {
                GeometryError::Overflow
            } else {
                GeometryError::NotARotation
            }),
    {
        let r = turn_vertices(&mut self.vertices, plane, cos, sin);
        assert(old(self)@ == positions(old(self).vertices));
        r
    }

    /// The first three coordinates of every vertex, in the order of the
    /// vertices.
    pub fn projected_vertices(&self) -> (r: Vec<Vector3>)
        ensures
            r@.len() == 16,
            forall|i: int|
                0 <= i < 16 ==> (#[trigger] r@[i]).x == self@[i].x && r@[i].y == self@[i].y
                    && r@[i].z == self@[i].z,
    {
        let mut projected: Vec<Vector3> = Vec::new();
        let mut i: usize = 0;
        while i < 16
            invariant
                i <= 16,
                projected@.len() == i,
                forall|j: int|
                    0 <= j < i ==> (#[trigger] projected@[j]).x == self@[j].x && projected@[j].y
                        == self@[j].y && projected@[j].z == self@[j].z,
            decreases 16 - i,
        {
            let p = self.vertices[i].position;
            projected.push(Vector3 { x: p.x, y: p.y, z: p.z });
            i = i + 1;
        }
        projected
    }

    /// Shifts every vertex by `dw` along the fourth axis, or none where the
    /// image of some vertex does not fit.
    pub fn translate(&mut self, dw: i32) -> (r: Result<(), GeometryError>)
        ensures
            final(self)@.len() == 16,
            r is Ok <==> forall|i: int|
                0 <= i < 16 ==> fits(translated(#[trigger] old(self)@[i], dw as int)),
            r is Ok ==> forall|i: int|
                0 <= i < 16 ==> #[trigger] final(self)@[i] == translated(old(self)@[i], dw as int),
            r matches Err(e) ==> e == GeometryError::Overflow && final(self)@ == old(self)@,
    {
        let r = move_vertices(&mut self.vertices, Motion::Shift(dw));
        assert(old(self)@ == positions(old(self).vertices));
        r
    }
}

} // verus!
