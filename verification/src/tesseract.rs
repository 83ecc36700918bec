//! The tesseract with corners in {-1, 1}^4: its motions, its projection
//! through a four-dimensional camera, and the triangles and normals of its
//! surface.

use crate::matrix::{on_unit_circle, rotated};
use crate::polytope::{move_vertices, positions, turn_vertices, vertex_positions, Motion};
use crate::vector::{
    calc_4d_matrix, dot, fits, frame, minus, point, times, Point4, Vector3, Vector4,
};
use crate::{scaled, translated, Axis, GeometryError, Rotation, Vertex};
use vstd::prelude::*;

verus! {

/// The corners of the triangles of the surface, three to a triangle, as
/// numbers of vertices that count from 1.
pub const TRIANGLE_TABLE: [u32; 216] = [
    3, 5, 7, 1, 5, 3, 11, 9, 3, 1, 3, 9, 7, 5, 15, 13, 15, 5,
    3, 7, 11, 15, 11, 7, 1, 9, 5, 13, 5, 9, 11, 15, 9, 13, 9, 15,
    2, 6, 4, 8, 4, 6, 10, 12, 14, 16, 14, 12, 12, 10, 4, 2, 4, 10,
    8, 6, 16, 14, 16, 6, 12, 4, 16, 8, 16, 4, 2, 10, 6, 14, 6, 10,
    1, 3, 2, 4, 2, 3, 9, 10, 11, 12, 11, 10, 3, 1, 11, 9, 11, 1,
    2, 4, 10, 12, 10, 4, 1, 2, 9, 10, 9, 2, 4, 3, 12, 11, 12, 3,
    8, 7, 4, 3, 4, 7, 16, 12, 15, 11, 15, 12, 12, 4, 11, 3, 11, 4,
    16, 15, 8, 7, 8, 15, 12, 16, 4, 8, 4, 16, 11, 3, 15, 7, 15, 3,
    6, 5, 8, 7, 8, 5, 14, 16, 13, 15, 13, 16, 5, 13, 7, 15, 7, 13,
    7, 15, 8, 16, 8, 15, 8, 16, 6, 14, 6, 16, 6, 5, 14, 13, 14, 5,
    5, 1, 6, 2, 6, 1, 13, 14, 9, 10, 9, 14, 5, 13, 1, 9, 1, 13,
    6, 2, 14, 10, 14, 2, 1, 9, 2, 10, 2, 9, 13, 5, 14, 6, 14, 5,
];

/// The tesseract: sixteen vertices in a fixed order.
#[derive(Clone, Copy, Debug)]
pub struct Tesseract {
    vertices: [Vertex; 16],
}

/// The projection of one vertex before the perspective division: the inner
/// products of its offset from the camera with the frame's `a`, `b` and `c`,
/// and as `depth` that with the view direction `d`. The point on the screen
/// is `(x, y, z)` times the camera's scale over `depth`; a vertex with the
/// depth zero lies in the camera's horizon and has no point on the screen.
#[derive(Clone, Copy, Debug, PartialEq, Eq, Structural)]
pub struct Projection {
    pub x: i128,
    pub y: i128,
    pub z: i128,
    pub depth: i128,
}

/// -1 for the bit 0 and 1 for the bit 1.
pub open spec fn side(bit: int) -> int {
    2 * bit - 1
}

/// The position that the vertex of the given number has at first: the binary
/// digits of the number, from the lowest, choose the side along X, Y, Z, W.
pub open spec fn corner(i: int) -> Point4 {
    point(side(i % 2), side((i / 2) % 2), side((i / 4) % 2), side((i / 8) % 2))
}

/// The vertex, counted from 0, at corner `k` of triangle `t`.
pub open spec fn triangle_corner(t: int, k: int) -> int {
    TRIANGLE_TABLE[3 * t + k] - 1
}

/// The normal that goes with the vertex of the given number: four times each
/// of the directions up, down, right and left.
pub open spec fn normal(i: int) -> (int, int, int) {
    if i < 4 {
        (0, 1, 0)
    } else if i < 8 {
        (0, -1, 0)
    } else if i < 12 {
        (1, 0, 0)
    } else {
        (-1, 0, 0)
    }
}

/// The normal of a triangle: that of its first corner, the one whose
/// attributes a renderer takes for the whole of a flat triangle.
pub open spec fn triangle_normal(t: int) -> (int, int, int) {
    normal(triangle_corner(t, 0))
}

/// The inner products of `p - from` with the four vectors of a frame.
pub open spec fn projection(p: Point4, from: Point4, a: Point4, b: Point4, c: Point4, d: Point4) -> (
    int,
    int,
    int,
    int,
) {
    let v = minus(p, from);
    (dot(v, a), dot(v, b), dot(v, c), dot(v, d))
}

/// The inner product of `p - from` and `axis`.
fn offset_dot(p: &Vector4, from: &Vector4, axis: &Vector4) -> (r: i128)
    ensures
        r == dot(minus(p@, from@), axis@),
{
    times(axis.x, p.x as i128 - from.x as i128) + times(axis.y, p.y as i128 - from.y as i128)
        + times(axis.z, p.z as i128 - from.z as i128) + times(
        axis.w,
        p.w as i128 - from.w as i128,
    )
}

/// The normal that goes with the vertex of the given number.
fn vertex_normal(i: u32) -> (n: Vector3)
    ensures
        (n.x as int, n.y as int, n.z as int) == normal(i as int),
{
    if i < 4 {
        Vector3 { x: 0, y: 1, z: 0 }
    } else if i < 8 {
        Vector3 { x: 0, y: -1, z: 0 }
    } else if i < 12 {
        Vector3 { x: 1, y: 0, z: 0 }
    } else {
        Vector3 { x: -1, y: 0, z: 0 }
    }
}

impl View for Tesseract {
    type V = Seq<Point4>;

    closed spec fn view(&self) -> Seq<Point4> {
        positions(self.vertices)
    }
}

impl Tesseract {
    /// The tesseract with its corners in {-1, 1}^4.
    pub fn new() -> (t: Self)
        ensures
            t@.len() == 16,
            forall|i: int| 0 <= i < 16 ==> #[trigger] t@[i] == corner(i),
    {
        let vertices = [
            Vertex::new(-1, -1, -1, -1),
            Vertex::new(1, -1, -1, -1),
            Vertex::new(-1, 1, -1, -1),
            Vertex::new(1, 1, -1, -1),
            Vertex::new(-1, -1, 1, -1),
            Vertex::new(1, -1, 1, -1),
            Vertex::new(-1, 1, 1, -1),
            Vertex::new(1, 1, 1, -1),
            Vertex::new(-1, -1, -1, 1),
            Vertex::new(1, -1, -1, 1),
            Vertex::new(-1, 1, -1, 1),
            Vertex::new(1, 1, -1, 1),
            Vertex::new(-1, -1, 1, 1),
            Vertex::new(1, -1, 1, 1),
            Vertex::new(-1, 1, 1, 1),
            Vertex::new(1, 1, 1, 1),
        ];
        Self { vertices }
    }

    /// A tesseract has sixteen vertices, whatever was done to it.
    pub proof fn lemma_vertex_count(self)
        ensures
            self@.len() == 16,
    {
    }

    /// The positions of the vertices, in their order.
    pub fn positions(&self) -> (r: Vec<Vector4>)
        ensures
            r@.len() == 16,
            self@.len() == 16,
            forall|i: int| 0 <= i < 16 ==> #[trigger] r@[i]@ == self@[i],
    {
        vertex_positions(&self.vertices)
    }

    /// Shifts every vertex by `dw` along the fourth axis, or none where the
    /// image of some vertex does not fit.
    pub fn translate(&mut self, dw: i32) -> (r: Result<(), GeometryError>)
        ensures
            final(self)@.len() == 16,
            r is Ok <==> forall|i: int|
                0 <= i < 16 ==> fits(translated(#[trigger] old(self)@[i], dw as int)),
            r is Ok ==> forall|i: int|
                0 <= i < 16 ==> #[trigger] final(self)@[i] == translated(old(self)@[i], dw as int),
            r matches Err(e) ==> e == GeometryError::Overflow && final(self)@ == old(self)@,
    {
        let r = move_vertices(&mut self.vertices, Motion::Shift(dw));
        assert(old(self)@ == positions(old(self).vertices));
        r
    }

    /// Stretches one axis of every vertex by `factor`, or of none where the
    /// image of some vertex does not fit.
    pub fn scale(&mut self, axis: Axis, factor: i32) -> (r: Result<(), GeometryError>)
        ensures
            final(self)@.len() == 16,
            r is Ok <==> forall|i: int|
                0 <= i < 16 ==> fits(scaled(#[trigger] old(self)@[i], axis, factor as int)),
            r is Ok ==> forall|i: int|
                0 <= i < 16 ==> #[trigger] final(self)@[i] == scaled(
                    old(self)@[i],
                    axis,
                    factor as int,
                ),
            r matches Err(e) ==> e == GeometryError::Overflow && final(self)@ == old(self)@,
    {
        let r = move_vertices(&mut self.vertices, Motion::Stretch(axis, factor));
        assert(old(self)@ == positions(old(self).vertices));
        r
    }

    /// Turns every vertex in the given plane by the angle whose cosine and
    /// sine are `cos` and `sin`. A pair off the unit circle is no rotation
    /// and is refused; on the lattice the rotations are the quarter turns.
    /// Where the image of some vertex does not fit, no vertex moves.
    pub fn rotate(&mut self, plane: Rotation, cos: i32, sin: i32) -> (r: Result<(), GeometryError>)
        ensures
            final(self)@.len() == 16,
            r is Ok <==> on_unit_circle(cos as int, sin as int) && forall|i: int|
                0 <= i < 16 ==> fits(
                    rotated(plane, cos as int, sin as int, #[trigger] old(self)@[i]),
                ),
            r is Ok ==> forall|i: int|
                0 <= i < 16 ==> #[trigger] final(self)@[i] == rotated(
                    plane,
                    cos as int,
                    sin as int,
                    old(self)@[i],
                ),
            r matches Err(e) ==> final(self)@ == old(self)@ && e == (if on_unit_circle(
                cos as int,
                sin as int,
            ) {
                GeometryError::Overflow
            } else {
                GeometryError::NotARotation
            }),
    {
        let r = turn_vertices(&mut self.vertices, plane, cos, sin);
        assert(old(self)@ == positions(old(self).vertices));
        r
    }

    /// The projection of every vertex through the camera at `from` that looks
    /// at `to`, before the perspective division. It fails where the camera
    /// has no frame.
    pub fn projected_vertices(
        &self,
        from: Vector4,
        to: Vector4,
        up: Vector4,
        over: Vector4,
    ) -> (r: Result<Vec<Projection>, GeometryError>)
        ensures
            match r {
                Ok(ps) => frame(from@, to@, up@, over@) matches Ok((a, b, c, d)) && ps@.len() == 16
                    && forall|i: int|
                    0 <= i < 16 ==> (
                    (#[trigger] ps@[i]).x as int,
                    ps@[i].y as int,
                    ps@[i].z as int,
                    ps@[i].depth as int,
                ) == projection(self@[i], from@, a, b, c, d),
                Err(e) => frame(from@, to@, up@, over@) == Err::<
                    (Point4, Point4, Point4, Point4),
                    GeometryError,
                >(e),
            },
    {
        let (a, b, c, d) = match calc_4d_matrix(from, to, up, over) {
            Ok(f) => f,
            Err(e) => {
                return Err(e);
            },
        };
        let mut projected: Vec<Projection> = Vec::new();
        let mut i: usize = 0;
        while i < 16
            invariant
                i <= 16,
                projected@.len() == i,
                forall|j: int|
                    0 <= j < i ==> (
                        (#[trigger] projected@[j]).x as int,
                        projected@[j].y as int,
                        projected@[j].z as int,
                        projected@[j].depth as int,
                    ) == projection(self@[j], from@, a@, b@, c@, d@),
            decreases 16 - i,
        {
            let p = self.vertices[i].position;
            projected.push(
                Projection {
                    x: offset_dot(&p, &from, &a),
                    y: offset_dot(&p, &from, &b),
                    z: offset_dot(&p, &from, &c),
                    depth: offset_dot(&p, &from, &d),
                },
            );
            i = i + 1;
        }
        Ok(projected)
    }

    /// The triangles of the surface, each as the numbers of its three
    /// vertices, counted from 0. Every number is that of a vertex, and no
    /// triangle names a vertex twice.
    pub fn topology(&self) -> (r: Vec<[u32; 3]>)
        ensures
            r@.len() == 72,
            forall|t: int, k: int|
                0 <= t < 72 && 0 <= k < 3 ==> #[trigger] r@[t][k] == triangle_corner(t, k),
            forall|t: int, k: int| 0 <= t < 72 && 0 <= k < 3 ==> 0 <= #[trigger] r@[t][k] < 16,
            forall|t: int|
                0 <= t < 72 ==> (#[trigger] r@[t])[0] != r@[t][1] && r@[t][0] != r@[t][2] && r@[t][1]
                    != r@[t][2],
    {
        let mut r: Vec<[u32; 3]> = Vec::new();
        let mut t: usize = 0;
        while t < 72
            invariant
                t <= 72,
                r@.len() == t,
                forall|s: int, k: int|
                    0 <= s < t && 0 <= k < 3 ==> #[trigger] r@[s][k] == triangle_corner(s, k),
            decreases 72 - t,
        {
            proof {
                lemma_corner_in_range(t as int, 0);
                lemma_corner_in_range(t as int, 1);
                lemma_corner_in_range(t as int, 2);
            }
            let a: u32 = TRIANGLE_TABLE[3 * t] - 1;
            let b: u32 = TRIANGLE_TABLE[3 * t + 1] - 1;
            let c: u32 = TRIANGLE_TABLE[3 * t + 2] - 1;
            r.push([a, b, c]);
            t = t + 1;
        }
        proof {
            assert forall|t: int, k: int| 0 <= t < 72 && 0 <= k < 3 implies 0 <= #[trigger] r@[t][k]
                < 16 by {
                lemma_corner_in_range(t, k);
            }
            assert forall|t: int| 0 <= t < 72 implies (#[trigger] r@[t])[0] != r@[t][1] && r@[t][0]
                != r@[t][2] && r@[t][1] != r@[t][2] by {
                lemma_corners_distinct(t);
                assert(r@[t][0] == triangle_corner(t, 0));
                assert(r@[t][1] == triangle_corner(t, 1));
                assert(r@[t][2] == triangle_corner(t, 2));
            }
        }
        r
    }

    /// The normals of the surface, one for each triangle of `topology`, in
    /// the order of the triangles: normal `t` goes with triangle `t`. Each
    /// has the length 1. They are fixed: no motion of the tesseract changes
    /// them.
    pub fn face_normals(&self) -> (r: Vec<Vector3>)
        ensures
            r@.len() == 72,
            forall|t: int|
                0 <= t < 72 ==> ((#[trigger] r@[t]).x as int, r@[t].y as int, r@[t].z as int)
                    == triangle_normal(t),
            forall|t: int|
                0 <= t < 72 ==> (#[trigger] r@[t]).x * r@[t].x + r@[t].y * r@[t].y + r@[t].z * r@[t].z
                    == 1,
    {
        let mut r: Vec<Vector3> = Vec::new();
        let mut t: usize = 0;
        while t < 72
            invariant
                t <= 72,
                r@.len() == t,
                forall|s: int|
                    0 <= s < t ==> ((#[trigger] r@[s]).x as int, r@[s].y as int, r@[s].z as int)
                        == triangle_normal(s),
            decreases 72 - t,
        {
            proof {
                lemma_corner_in_range(t as int, 0);
            }
            r.push(vertex_normal(TRIANGLE_TABLE[3 * t] - 1));
            t = t + 1;
        }
        proof {
            assert forall|t: int| 0 <= t < 72 implies (#[trigger] r@[t]).x * r@[t].x + r@[t].y
                * r@[t].y + r@[t].z * r@[t].z == 1 by {
                lemma_normal_unit(triangle_corner(t, 0));
            }
        }
        r
    }

    /// The normals as a renderer takes them with the vertices: one for each
    /// vertex, in the order of the vertices, each of the length 1.
    pub fn vertex_normals(&self) -> (r: Vec<Vector3>)
        ensures
            r@.len() == 16,
            forall|i: int|
                0 <= i < 16 ==> ((#[trigger] r@[i]).x as int, r@[i].y as int, r@[i].z as int)
                    == normal(i),
            forall|i: int|
                0 <= i < 16 ==> (#[trigger] r@[i]).x * r@[i].x + r@[i].y * r@[i].y + r@[i].z * r@[i].z
                    == 1,
    {
        let mut r: Vec<Vector3> = Vec::new();
        let mut i: u32 = 0;
        while i < 16
            invariant
                i <= 16,
                r@.len() == i,
                forall|j: int|
                    0 <= j < i ==> ((#[trigger] r@[j]).x as int, r@[j].y as int, r@[j].z as int)
                        == normal(j),
            decreases 16 - i,
        {
            r.push(vertex_normal(i));
            i = i + 1;
        }
        proof {
            assert forall|i: int| 0 <= i < 16 implies (#[trigger] r@[i]).x * r@[i].x + r@[i].y
                * r@[i].y + r@[i].z * r@[i].z == 1 by {
                lemma_normal_unit(i);
            }
        }
        r
    }
}

/// Every normal of the table has the length 1.
pub proof fn lemma_normal_unit(i: int)
    ensures
        normal(i).0 * normal(i).0 + normal(i).1 * normal(i).1 + normal(i).2 * normal(i).2 == 1,
{
    let n = normal(i);
    assert(n.0 * n.0 + n.1 * n.1 + n.2 * n.2 == 1) by (nonlinear_arith)
        requires
            n == (0int, 1int, 0int) || n == (0int, -1int, 0int) || n == (1int, 0int, 0int) || n == (
                -1int,
                0int,
                0int,
            ),
    ;
}

/// Every corner of every triangle is the number of a vertex.
pub proof fn lemma_corner_in_range(t: int, k: int)
    requires
        0 <= t < 72,
        0 <= k < 3,
    ensures
        0 <= triangle_corner(t, k) < 16,
{
}

/// The three corners of a triangle are three vertices.
pub proof fn lemma_corners_distinct(t: int)
    requires
        0 <= t < 72,
    ensures
        triangle_corner(t, 0) != triangle_corner(t, 1),
        triangle_corner(t, 0) != triangle_corner(t, 2),
        triangle_corner(t, 1) != triangle_corner(t, 2),
{
}

} // verus!
