//! Four-by-four integer matrices and the rotations in the planes through the
//! fourth axis.

use crate::vector::{distance_squared, dot, fits, narrow, point, times, Point4, Vector4};
use crate::Rotation;
use vstd::prelude::*;

verus! {

/// A matrix of four rows of four entries.
#[derive(Clone, Copy, Debug, PartialEq, Eq)]
pub struct Matrix4 {
    pub rows: [[i64; 4]; 4],
}

impl Matrix4 {
    /// The entry in row `i` and column `j`.
    pub open spec fn at(&self, i: int, j: int) -> int {
        self.rows[i][j] as int
    }

    /// The product of the matrix and a column vector, where it fits.
    pub fn transform(&self, v: &Vector4) -> (r: Option<Vector4>)
        ensures
            r is Some <==> fits(transform(*self, v@)),
            r matches Some(p) ==> p@ == transform(*self, v@),
    {
        let r0 = &self.rows[0];
        let r1 = &self.rows[1];
        let r2 = &self.rows[2];
        let r3 = &self.rows[3];
        narrow(
            times(v.x, r0[0] as i128) + times(v.y, r0[1] as i128) + times(v.z, r0[2] as i128)
                + times(v.w, r0[3] as i128),
            times(v.x, r1[0] as i128) + times(v.y, r1[1] as i128) + times(v.z, r1[2] as i128)
                + times(v.w, r1[3] as i128),
            times(v.x, r2[0] as i128) + times(v.y, r2[1] as i128) + times(v.z, r2[2] as i128)
                + times(v.w, r2[3] as i128),
            times(v.x, r3[0] as i128) + times(v.y, r3[1] as i128) + times(v.z, r3[2] as i128)
                + times(v.w, r3[3] as i128),
        )
    }
}

/// The product of a matrix and a column vector.
pub open spec fn transform(m: Matrix4, p: Point4) -> Point4 {
    point(
        m.at(0, 0) * p.x + m.at(0, 1) * p.y + m.at(0, 2) * p.z + m.at(0, 3) * p.w,
        m.at(1, 0) * p.x + m.at(1, 1) * p.y + m.at(1, 2) * p.z + m.at(1, 3) * p.w,
        m.at(2, 0) * p.x + m.at(2, 1) * p.y + m.at(2, 2) * p.z + m.at(2, 3) * p.w,
        m.at(3, 0) * p.x + m.at(3, 1) * p.y + m.at(3, 2) * p.z + m.at(3, 3) * p.w,
    )
}

/// The row and column, from 0 to 2, of the axis that a plane pairs with the
/// fourth.
pub open spec fn plane_axis(plane: Rotation) -> int {
    match plane {
        Rotation::XW => 0,
        Rotation::YW => 1,
        Rotation::ZW => 2,
    }
}

/// The entry in row `i` and column `j` of the matrix that turns the given
/// plane by the angle whose cosine and sine are `cos` and `sin`. The two axes
/// outside the plane are fixed. In the plane XW the sine stands in the row of
/// X and its negative in the row of W; in YW and ZW it is the other way round.
pub open spec fn rotation_entry(plane: Rotation, cos: int, sin: int, i: int, j: int) -> int {
    let k = plane_axis(plane);
    let up = if plane == Rotation::XW {
        sin
    } else {
        -sin
    };
    if (i == k && j == k) || (i == 3 && j == 3) {
        cos
    } else if i == k && j == 3 {
        up
    } else if i == 3 && j == k {
        -up
    } else if i == j {
        1
    } else {
        0
    }
}

/// Whether a pair lies on the unit circle, as the cosine and sine of an angle
/// do. On the lattice these are the four quarter turns.
pub open spec fn on_unit_circle(cos: int, sin: int) -> bool {
    cos * cos + sin * sin == 1
}

/// Where the rotation of a plane by the angle with the given cosine and sine
/// takes a point.
pub open spec fn rotated(plane: Rotation, cos: int, sin: int, p: Point4) -> Point4 {
    match plane {
        Rotation::XW => point(cos * p.x + sin * p.w, p.y, p.z, (-sin) * p.x + cos * p.w),
        Rotation::YW => point(p.x, cos * p.y + (-sin) * p.w, p.z, sin * p.y + cos * p.w),
        Rotation::ZW => point(p.x, p.y, cos * p.z + (-sin) * p.w, sin * p.z + cos * p.w),
    }
}

proof fn lemma_unit_product(e: int, v: int)
    by (nonlinear_arith)
    ensures
        e == 0 ==> e * v == 0,
        e == 1 ==> e * v == v,
{
}

/// The matrix of a rotation takes each point where `rotated` says.
pub proof fn lemma_rotation_transform(m: Matrix4, plane: Rotation, cos: int, sin: int, p: Point4)
    requires
        forall|i: int, j: int|
            0 <= i < 4 && 0 <= j < 4 ==> #[trigger] m.at(i, j) == rotation_entry(
                plane,
                cos,
                sin,
                i,
                j,
            ),
    ensures
        transform(m, p) == rotated(plane, cos, sin, p),
{
    assert(m.at(0, 0) == rotation_entry(plane, cos, sin, 0, 0));
    assert(m.at(0, 1) == rotation_entry(plane, cos, sin, 0, 1));
    assert(m.at(0, 2) == rotation_entry(plane, cos, sin, 0, 2));
    assert(m.at(0, 3) == rotation_entry(plane, cos, sin, 0, 3));
    assert(m.at(1, 0) == rotation_entry(plane, cos, sin, 1, 0));
    assert(m.at(1, 1) == rotation_entry(plane, cos, sin, 1, 1));
    assert(m.at(1, 2) == rotation_entry(plane, cos, sin, 1, 2));
    assert(m.at(1, 3) == rotation_entry(plane, cos, sin, 1, 3));
    assert(m.at(2, 0) == rotation_entry(plane, cos, sin, 2, 0));
    assert(m.at(2, 1) == rotation_entry(plane, cos, sin, 2, 1));
    assert(m.at(2, 2) == rotation_entry(plane, cos, sin, 2, 2));
    assert(m.at(2, 3) == rotation_entry(plane, cos, sin, 2, 3));
    assert(m.at(3, 0) == rotation_entry(plane, cos, sin, 3, 0));
    assert(m.at(3, 1) == rotation_entry(plane, cos, sin, 3, 1));
    assert(m.at(3, 2) == rotation_entry(plane, cos, sin, 3, 2));
    assert(m.at(3, 3) == rotation_entry(plane, cos, sin, 3, 3));
    lemma_unit_product(m.at(0, 0), p.x);
    lemma_unit_product(m.at(0, 1), p.y);
    lemma_unit_product(m.at(0, 2), p.z);
    lemma_unit_product(m.at(0, 3), p.w);
    lemma_unit_product(m.at(1, 0), p.x);
    lemma_unit_product(m.at(1, 1), p.y);
    lemma_unit_product(m.at(1, 2), p.z);
    lemma_unit_product(m.at(1, 3), p.w);
    lemma_unit_product(m.at(2, 0), p.x);
    lemma_unit_product(m.at(2, 1), p.y);
    lemma_unit_product(m.at(2, 2), p.z);
    lemma_unit_product(m.at(2, 3), p.w);
    lemma_unit_product(m.at(3, 0), p.x);
    lemma_unit_product(m.at(3, 1), p.y);
    lemma_unit_product(m.at(3, 2), p.z);
    lemma_unit_product(m.at(3, 3), p.w);
}

/// The matrix that turns the given plane by the angle whose cosine and sine
/// are `cos` and `sin`. Its entries are linear in the pair. For a pair on the
/// unit circle it is the matrix of a rotation, and the polytopes turn by
/// such pairs only; for another pair the same entries turn the plane and
/// stretch it as well.
pub fn rotation_matrix(plane: Rotation, cos: i32, sin: i32) -> (m: Matrix4)
    ensures
        forall|i: int, j: int|
            0 <= i < 4 && 0 <= j < 4 ==> #[trigger] m.at(i, j) == rotation_entry(
                plane,
                cos as int,
                sin as int,
                i,
                j,
            ),
        forall|p: Point4| #[trigger] transform(m, p) == rotated(plane, cos as int, sin as int, p),
{
    let c: i64 = cos as i64;
    let s: i64 = sin as i64;
    let m = match plane {
        Rotation::XW => Matrix4 { rows: [[c, 0, 0, s], [0, 1, 0, 0], [0, 0, 1, 0], [-s, 0, 0, c]] },
        Rotation::YW => Matrix4 { rows: [[1, 0, 0, 0], [0, c, 0, -s], [0, 0, 1, 0], [0, s, 0, c]] },
        Rotation::ZW => Matrix4 { rows: [[1, 0, 0, 0], [0, 1, 0, 0], [0, 0, c, -s], [0, 0, s, c]] },
    };
    proof {
        assert forall|p: Point4| #[trigger]
            transform(m, p) == rotated(plane, cos as int, sin as int, p) by {
            lemma_rotation_transform(m, plane, cos as int, sin as int, p);
        }
    }
    m
}

proof fn lemma_distribute_sum(k: int, a: int, b: int)
    by (nonlinear_arith)
    ensures
        k * (a + b) == k * a + k * b,
        (a + b) * k == a * k + b * k,
{
}

proof fn lemma_associate(a: int, b: int, c: int)
    by (nonlinear_arith)
    ensures
        a * (b * c) == (a * b) * c,
{
}

proof fn lemma_negate(a: int, b: int)
    by (nonlinear_arith)
    ensures
        (-a) * b == -(a * b),
        a * (-b) == -(a * b),
        a * b == b * a,
{
}

proof fn lemma_square_sum(a: int, b: int)
    by (nonlinear_arith)
    ensures
        (a + b) * (a + b) == a * a + 2 * (a * b) + b * b,
{
}

proof fn lemma_pair(a: int, b: int, c: int, d: int)
    by (nonlinear_arith)
    ensures
        (a * b) * (c * d) == (a * c) * (b * d),
{
}

proof fn lemma_four_products(a: int, b: int, c: int, d: int)
    by (nonlinear_arith)
    ensures
        (a + b) * (c + d) == a * c + a * d + b * c + b * d,
{
}

proof fn lemma_turn_back(c: int, s: int, x: int, w: int)
    ensures
        c * (c * x + s * w) + (-s) * ((-s) * x + c * w) == (c * c + s * s) * x,
        s * (c * x + s * w) + c * ((-s) * x + c * w) == (c * c + s * s) * w,
{
    lemma_distribute_sum(c, c * x, s * w);
    lemma_distribute_sum(-s, (-s) * x, c * w);
    lemma_distribute_sum(s, c * x, s * w);
    lemma_distribute_sum(c, (-s) * x, c * w);
    lemma_distribute_sum(x, c * c, s * s);
    lemma_distribute_sum(w, c * c, s * s);
    lemma_associate(c, c, x);
    lemma_associate(c, c, w);
    lemma_associate(s, s, x);
    lemma_associate(s, s, w);
    lemma_associate(-s, -s, x);
    lemma_square_negated(s);
    lemma_associate(c, s, w);
    lemma_associate(-s, c, w);
    lemma_associate(s, c, x);
    lemma_associate(c, -s, x);
    lemma_negate(s, c);
    lemma_negate(c, s);
    lemma_negate(c * s, w);
    lemma_negate(c * s, x);
}

proof fn lemma_turn_length(c: int, s: int, x: int, w: int)
    ensures
        (c * x + s * w) * (c * x + s * w) + ((-s) * x + c * w) * ((-s) * x + c * w) == (c * c + s
            * s) * (x * x + w * w),
{
    lemma_square_sum(c * x, s * w);
    lemma_square_sum((-s) * x, c * w);
    lemma_pair(c, x, c, x);
    lemma_pair(s, w, s, w);
    lemma_pair(-s, x, -s, x);
    lemma_pair(c, w, c, w);
    lemma_square_negated(s);
    lemma_pair(c, x, s, w);
    lemma_pair(-s, x, c, w);
    lemma_negate(s, c);
    lemma_negate(c * s, x * w);
    lemma_four_products(c * c, s * s, x * x, w * w);
}

proof fn lemma_turn_linear(c: int, s: int, x: int, w: int, y: int, v: int)
    by (nonlinear_arith)
    ensures
        (c * x + s * w) - (c * y + s * v) == c * (x - y) + s * (w - v),
{
}

/// The point whose two coordinates in the given plane are `k` times those
/// of `p`, and whose other two are those of `p`.
pub open spec fn stretched(plane: Rotation, k: int, p: Point4) -> Point4 {
    match plane {
        Rotation::XW => point(k * p.x, p.y, p.z, k * p.w),
        Rotation::YW => point(p.x, k * p.y, p.z, k * p.w),
        Rotation::ZW => point(p.x, p.y, k * p.z, k * p.w),
    }
}

/// The squared distance between the shadows of two points in the given plane.
pub open spec fn plane_distance_squared(plane: Rotation, p: Point4, q: Point4) -> int {
    match plane {
        Rotation::XW => (p.x - q.x) * (p.x - q.x) + (p.w - q.w) * (p.w - q.w),
        Rotation::YW => (p.y - q.y) * (p.y - q.y) + (p.w - q.w) * (p.w - q.w),
        Rotation::ZW => (p.z - q.z) * (p.z - q.z) + (p.w - q.w) * (p.w - q.w),
    }
}

proof fn lemma_square_negated(s: int)
    by (nonlinear_arith)
    ensures
        (-s) * (-s) == s * s,
{
}

proof fn lemma_excess(k: int, d: int)
    by (nonlinear_arith)
    ensures
        k * d == d + (k - 1) * d,
        k == 1 ==> k * d == d,
{
}

/// Turning a plane by an angle and then by the opposite angle, whose cosine
/// is the same and whose sine is the negative, stretches the plane by
/// `cos * cos + sin * sin`. For the cosine and sine of an angle that is 1,
/// and every point is back where it was, so the way back fits wherever the
/// point did.
pub proof fn lemma_rotate_inverse(plane: Rotation, cos: int, sin: int, p: Point4)
    ensures
        rotated(plane, cos, -sin, rotated(plane, cos, sin, p)) == stretched(
            plane,
            cos * cos + sin * sin,
            p,
        ),
        on_unit_circle(cos, sin) ==> rotated(plane, cos, -sin, rotated(plane, cos, sin, p)) == p,
        on_unit_circle(cos, sin) && fits(p) ==> fits(
            rotated(plane, cos, -sin, rotated(plane, cos, sin, p)),
        ),
{
    let k = cos * cos + sin * sin;
    lemma_square_negated(sin);
    lemma_excess(k, p.x);
    lemma_excess(k, p.y);
    lemma_excess(k, p.z);
    lemma_excess(k, p.w);
    match plane {
        Rotation::XW => {
            lemma_turn_back(cos, sin, p.x, p.w);
        },
        Rotation::YW => {
            lemma_turn_back(cos, -sin, p.y, p.w);
        },
        Rotation::ZW => {
            lemma_turn_back(cos, -sin, p.z, p.w);
        },
    }
}

/// Turning a plane by the angle zero, whose cosine is 1 and whose sine is 0,
/// moves no point.
pub proof fn lemma_rotate_zero(plane: Rotation, p: Point4)
    ensures
        rotated(plane, 1, 0, p) == p,
{
    lemma_unit_product(1, p.x);
    lemma_unit_product(1, p.y);
    lemma_unit_product(1, p.z);
    lemma_unit_product(1, p.w);
    lemma_unit_product(0, p.x);
    lemma_unit_product(0, p.y);
    lemma_unit_product(0, p.z);
    lemma_unit_product(0, p.w);
}

/// Turning a plane changes the squared distance between two points by
/// `cos * cos + sin * sin - 1` times the squared distance between their
/// shadows in the plane. For the cosine and sine of an angle that is nothing:
/// a rotation keeps the distance between any two points.
pub proof fn lemma_rotate_isometry(plane: Rotation, cos: int, sin: int, p: Point4, q: Point4)
    ensures
        distance_squared(rotated(plane, cos, sin, p), rotated(plane, cos, sin, q))
            == distance_squared(p, q) + (cos * cos + sin * sin - 1) * plane_distance_squared(
            plane,
            p,
            q,
        ),
        on_unit_circle(cos, sin) ==> distance_squared(
            rotated(plane, cos, sin, p),
            rotated(plane, cos, sin, q),
        ) == distance_squared(p, q),
{
    let k = cos * cos + sin * sin;
    lemma_square_negated(sin);
    lemma_excess(k, plane_distance_squared(plane, p, q));
    lemma_unit_product(k - 1, plane_distance_squared(plane, p, q));
    match plane {
        Rotation::XW => {
            lemma_turn_linear(cos, sin, p.x, p.w, q.x, q.w);
            lemma_turn_linear(-sin, cos, p.x, p.w, q.x, q.w);
            lemma_turn_length(cos, sin, p.x - q.x, p.w - q.w);
        },
        Rotation::YW => {
            lemma_turn_linear(cos, -sin, p.y, p.w, q.y, q.w);
            lemma_turn_linear(sin, cos, p.y, p.w, q.y, q.w);
            lemma_turn_length(cos, -sin, p.y - q.y, p.w - q.w);
        },
        Rotation::ZW => {
            lemma_turn_linear(cos, -sin, p.z, p.w, q.z, q.w);
            lemma_turn_linear(sin, cos, p.z, p.w, q.z, q.w);
            lemma_turn_length(cos, -sin, p.z - q.z, p.w - q.w);
        },
    }
}

/// Turning a plane leaves the origin where it is, and a rotation keeps the
/// distance of every point from the origin.
pub proof fn lemma_rotate_about_origin(plane: Rotation, cos: int, sin: int, p: Point4)
    ensures
        rotated(plane, cos, sin, point(0, 0, 0, 0)) == point(0, 0, 0, 0),
        on_unit_circle(cos, sin) ==> dot(rotated(plane, cos, sin, p), rotated(plane, cos, sin, p))
            == dot(p, p),
{
    let origin = point(0, 0, 0, 0);
    lemma_negate(cos, 0);
    lemma_negate(sin, 0);
    lemma_negate(-sin, 0);
    lemma_unit_product(0, cos);
    lemma_unit_product(0, sin);
    lemma_unit_product(0, -sin);
    lemma_rotate_isometry(plane, cos, sin, p, origin);
}

/// The cosine of the sum of two angles, from their cosines and sines.
pub open spec fn cos_sum(cos1: int, sin1: int, cos2: int, sin2: int) -> int {
    cos1 * cos2 - sin1 * sin2
}

/// The sine of the sum of two angles, from their cosines and sines.
pub open spec fn sin_sum(cos1: int, sin1: int, cos2: int, sin2: int) -> int {
    sin1 * cos2 + cos1 * sin2
}

proof fn lemma_turn_twice(c1: int, s1: int, c2: int, s2: int, x: int, w: int)
    ensures
        c2 * (c1 * x + s1 * w) + s2 * ((-s1) * x + c1 * w) == (c1 * c2 - s1 * s2) * x + (s1 * c2
            + c1 * s2) * w,
        (-s2) * (c1 * x + s1 * w) + c2 * ((-s1) * x + c1 * w) == (-(s1 * c2 + c1 * s2)) * x + (c1
            * c2 - s1 * s2) * w,
{
    lemma_distribute_sum(c2, c1 * x, s1 * w);
    lemma_distribute_sum(s2, (-s1) * x, c1 * w);
    lemma_distribute_sum(-s2, c1 * x, s1 * w);
    lemma_distribute_sum(c2, (-s1) * x, c1 * w);
    lemma_associate(c2, c1, x);
    lemma_associate(c2, s1, w);
    lemma_associate(s2, -s1, x);
    lemma_associate(s2, c1, w);
    lemma_associate(-s2, c1, x);
    lemma_associate(-s2, s1, w);
    lemma_associate(c2, -s1, x);
    lemma_associate(c2, c1, w);
    lemma_negate(c2, c1);
    lemma_negate(c2, s1);
    lemma_negate(s2, s1);
    lemma_negate(s2, c1);
    lemma_negate(s1 * s2, x);
    lemma_negate(s1 * s2, w);
    lemma_negate(c1 * s2, x);
    lemma_negate(s1 * c2, x);
    lemma_negate(s1 * c2 + c1 * s2, x);
    lemma_distribute_sum(x, c1 * c2, -(s1 * s2));
    lemma_distribute_sum(w, c1 * c2, -(s1 * s2));
    lemma_distribute_sum(x, s1 * c2, c1 * s2);
    lemma_distribute_sum(w, s1 * c2, c1 * s2);
}

/// Two turns of one plane amount to the turn by the sum of their angles.
pub proof fn lemma_rotate_twice(
    plane: Rotation,
    cos1: int,
    sin1: int,
    cos2: int,
    sin2: int,
    p: Point4,
)
    ensures
        rotated(plane, cos2, sin2, rotated(plane, cos1, sin1, p)) == rotated(
            plane,
            cos_sum(cos1, sin1, cos2, sin2),
            sin_sum(cos1, sin1, cos2, sin2),
            p,
        ),
{
    match plane {
        Rotation::XW => {
            lemma_turn_twice(cos1, sin1, cos2, sin2, p.x, p.w);
        },
        Rotation::YW => {
            lemma_turn_twice(cos1, -sin1, cos2, -sin2, p.y, p.w);
        },
        Rotation::ZW => {
            lemma_turn_twice(cos1, -sin1, cos2, -sin2, p.z, p.w);
        },
    }
    lemma_negate(sin1, cos2);
    lemma_negate(cos1, sin2);
    lemma_negate(sin1, sin2);
    lemma_negate(sin1, -sin2);
}

/// The sum of two angles is an angle: where two pairs lie on the unit circle,
/// so does the pair of the cosine and sine of the sum.
pub proof fn lemma_sum_on_unit_circle(cos1: int, sin1: int, cos2: int, sin2: int)
    requires
        on_unit_circle(cos1, sin1),
        on_unit_circle(cos2, sin2),
    ensures
        on_unit_circle(cos_sum(cos1, sin1, cos2, sin2), sin_sum(cos1, sin1, cos2, sin2)),
{
    lemma_turn_length(cos2, sin2, sin1, cos1);
    lemma_negate(cos2, sin1);
    lemma_negate(sin2, cos1);
    lemma_negate(sin2, sin1);
    lemma_negate(cos2, cos1);
    lemma_unit_product(cos2 * cos2 + sin2 * sin2, sin1 * sin1 + cos1 * cos1);
}

} // verus!
