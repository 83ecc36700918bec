//! What the sixteen-cornered polytopes share: one motion applied to every
//! vertex, or to none.

use crate::matrix::{on_unit_circle, rotated, rotation_matrix, transform, Matrix4};
use crate::vector::{fits, wide, Point4, Vector4};
use crate::{scaled, translated, Axis, GeometryError, Rotation, Vertex};
use vstd::prelude::*;

verus! {

/// A motion of four-space.
#[derive(Clone, Copy, Debug)]
pub(crate) enum Motion {
    /// The product with a matrix.
    Linear(Matrix4),
    /// A shift along the fourth axis.
    Shift(i32),
    /// A stretch of one axis.
    Stretch(Axis, i32),
}

/// Where a motion takes a point.
pub(crate) open spec fn moved(motion: Motion, p: Point4) -> Point4 {
    match motion {
        Motion::Linear(m) => transform(m, p),
        Motion::Shift(dw) => translated(p, dw as int),
        Motion::Stretch(axis, factor) => scaled(p, axis, factor as int),
    }
}

/// The positions of the vertices, in their order.
pub(crate) open spec fn positions(vertices: [Vertex; 16]) -> Seq<Point4> {
    Seq::new(16, |i: int| vertices[i]@)
}

/// Applies a motion to one vertex.
pub(crate) fn move_vertex(vertex: &mut Vertex, motion: Motion) -> (r: Result<(), GeometryError>)
    ensures
        r is Ok <==> fits(moved(motion, old(vertex)@)),
        r is Ok ==> final(vertex)@ == moved(motion, old(vertex)@),
        r matches Err(e) ==> e == GeometryError::Overflow && *final(vertex) == *old(vertex),
{
    match motion {
        Motion::Linear(m) => vertex.apply_matrix(m),
        Motion::Shift(dw) => vertex.translate(dw),
        Motion::Stretch(axis, factor) => vertex.scale(axis, factor),
    }
}

/// Applies a motion to every vertex. Where the image of some vertex does not
/// fit, no vertex moves.
pub(crate) fn move_vertices(vertices: &mut [Vertex; 16], motion: Motion) -> (r: Result<
    (),
    GeometryError,
>)
    ensures
        r is Ok <==> forall|i: int|
            0 <= i < 16 ==> fits(moved(motion, #[trigger] positions(*old(vertices))[i])),
        r is Ok ==> forall|i: int|
            0 <= i < 16 ==> #[trigger] positions(*final(vertices))[i] == moved(
                motion,
                positions(*old(vertices))[i],
            ),
        r matches Err(e) ==> e == GeometryError::Overflow && *final(vertices) == *old(vertices),
{
    let mut next: [Vertex; 16] = *vertices;
    let mut i: usize = 0;
    while i < 16
        invariant
            i <= 16,
            forall|j: int| 0 <= j < i ==> #[trigger] next[j]@ == moved(motion, vertices[j]@),
            forall|j: int| i <= j < 16 ==> #[trigger] next[j] == vertices[j],
        decreases 16 - i,
    {
        let mut v: Vertex = next[i];
        match move_vertex(&mut v, motion) {
            Ok(()) => {
                next[i] = v;
            },
            Err(e) => {
                assert(!fits(moved(motion, positions(*vertices)[i as int])));
                return Err(e);
            },
        }
        i = i + 1;
    }
    proof {
        assert forall|j: int| 0 <= j < 16 implies fits(
            moved(motion, #[trigger] positions(*vertices)[j]),
        ) by {
            assert(next[j]@ == moved(motion, vertices[j]@));
        }
    }
    *vertices = next;
    Ok(())
}

/// Turns every vertex in the given plane by the angle whose cosine and sine
/// are `cos` and `sin`. Where the pair is off the unit circle, or the image
/// of some vertex does not fit, no vertex moves.
pub(crate) fn turn_vertices(vertices: &mut [Vertex; 16], plane: Rotation, cos: i32, sin: i32) -> (r:
    Result<(), GeometryError>)
    ensures
        r is Ok <==> on_unit_circle(cos as int, sin as int) && forall|i: int|
            0 <= i < 16 ==> fits(
                rotated(plane, cos as int, sin as int, #[trigger] positions(*old(vertices))[i]),
            ),
        r is Ok ==> forall|i: int|
            0 <= i < 16 ==> #[trigger] positions(*final(vertices))[i] == rotated(
                plane,
                cos as int,
                sin as int,
                positions(*old(vertices))[i],
            ),
        r matches Err(e) ==> *final(vertices) == *old(vertices) && e == (if on_unit_circle(
            cos as int,
            sin as int,
        ) {
            GeometryError::Overflow
        } else {
            GeometryError::NotARotation
        }),
{
    if wide(cos, cos) + wide(sin, sin) != 1 {
        return Err(GeometryError::NotARotation);
    }
    let rotation_matrix = rotation_matrix(plane, cos, sin);
    move_vertices(vertices, Motion::Linear(rotation_matrix))
}

/// The positions of the vertices, in their order.
pub(crate) fn vertex_positions(vertices: &[Vertex; 16]) -> (r: Vec<Vector4>)
    ensures
        r@.len() == 16,
        forall|i: int| 0 <= i < 16 ==> #[trigger] r@[i] == vertices[i].position,
{
    let mut r: Vec<Vector4> = Vec::new();
    let mut i: usize = 0;
    while i < 16
        invariant
            i <= 16,
            r@.len() == i,
            forall|j: int| 0 <= j < i ==> #[trigger] r@[j] == vertices[j].position,
        decreases 16 - i,
    {
        r.push(vertices[i].position);
        i = i + 1;
    }
    r
}

} // verus!
