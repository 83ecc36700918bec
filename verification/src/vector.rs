//! Lattice vectors in four-space, their inner product, the ternary cross
//! product, and the orthogonal frame of a four-dimensional camera.

use crate::GeometryError;
use vstd::prelude::*;

verus! {

/// The mathematical value of a vector: four unbounded integers.
pub struct Point4 {
    pub x: int,
    pub y: int,
    pub z: int,
    pub w: int,
}

/// A point or direction with `i32` coordinates.
#[derive(Clone, Copy, Debug, PartialEq, Eq, Structural)]
pub struct Vector4 {
    pub x: i32,
    pub y: i32,
    pub z: i32,
    pub w: i32,
}

/// A point or direction of three-space with `i32` coordinates.
#[derive(Clone, Copy, Debug, PartialEq, Eq, Structural)]
pub struct Vector3 {
    pub x: i32,
    pub y: i32,
    pub z: i32,
}

impl View for Vector4 {
    type V = Point4;

    open spec fn view(&self) -> Point4 {
        point(self.x as int, self.y as int, self.z as int, self.w as int)
    }
}

pub open spec fn point(x: int, y: int, z: int, w: int) -> Point4 {
    Point4 { x, y, z, w }
}

/// Whether an integer is the value of some `i32`.
pub open spec fn in_range(v: int) -> bool {
    -0x8000_0000 <= v <= 0x7fff_ffff
}

/// Whether a point is the value of some `Vector4`.
pub open spec fn fits(p: Point4) -> bool {
    in_range(p.x) && in_range(p.y) && in_range(p.z) && in_range(p.w)
}

pub open spec fn is_zero(p: Point4) -> bool {
    p.x == 0 && p.y == 0 && p.z == 0 && p.w == 0
}

/// The difference `p - q`.
pub open spec fn minus(p: Point4, q: Point4) -> Point4 {
    point(p.x - q.x, p.y - q.y, p.z - q.z, p.w - q.w)
}

/// The inner product of two points.
pub open spec fn dot(u: Point4, v: Point4) -> int {
    u.x * v.x + u.y * v.y + u.z * v.z + u.w * v.w
}

/// The squared Euclidean distance between two points.
pub open spec fn distance_squared(p: Point4, q: Point4) -> int {
    dot(minus(p, q), minus(p, q))
}

/// The ternary cross product: the cofactor expansion, along `u`, of the
/// determinant whose other two rows are `v` and `w`.
pub open spec fn cross(u: Point4, v: Point4, w: Point4) -> Point4 {
    let a = v.x * w.y - v.y * w.x;
    let b = v.x * w.z - v.z * w.x;
    let c = v.x * w.w - v.w * w.x;
    let d = v.y * w.z - v.z * w.y;
    let e = v.y * w.w - v.w * w.y;
    let f = v.z * w.w - v.w * w.z;
    point(
        u.y * f - u.z * e + u.w * d,
        -(u.x * f) + u.z * c - u.w * b,
        u.x * e - u.y * c + u.w * a,
        -(u.x * d) + u.y * b - u.z * a,
    )
}

/// `(a * m) * b` and `(b * m) * a` are the same product.
proof fn lemma_swap(a: int, m: int, b: int)
    by (nonlinear_arith)
    ensures
        (a * m) * b == (b * m) * a,
        (a * m) * b == a * (m * b),
        (a * m) * b == (a * b) * m,
{
}

/// A sum of three signed terms times `k`, term by term.
proof fn lemma_distribute(p: int, q: int, r: int, k: int)
    by (nonlinear_arith)
    ensures
        (p - q + r) * k == p * k - q * k + r * k,
        (-p + q - r) * k == -(p * k) + q * k - r * k,
        k * (p - q + r) == k * p - k * q + k * r,
{
}

proof fn lemma_distribute_difference(p: int, q: int, k: int)
    by (nonlinear_arith)
    ensures
        (p - q) * k == p * k - q * k,
{
}

/// In three dimensions, `p` is orthogonal to the cross product of `p` and `q`,
/// and so is `q`.
proof fn lemma_triple(px: int, py: int, pz: int, qx: int, qy: int, qz: int)
    ensures
        (py * qz - pz * qy) * px - (px * qz - pz * qx) * py + (px * qy - py * qx) * pz == 0,
        (py * qz - pz * qy) * qx - (px * qz - pz * qx) * qy + (px * qy - py * qx) * qz == 0,
{
    lemma_distribute_difference(py * qz, pz * qy, px);
    lemma_distribute_difference(px * qz, pz * qx, py);
    lemma_distribute_difference(px * qy, py * qx, pz);
    lemma_swap(py, qz, px);
    lemma_swap(pz, qy, px);
    lemma_swap(pz, qx, py);
    lemma_distribute_difference(py * qz, pz * qy, qx);
    lemma_distribute_difference(px * qz, pz * qx, qy);
    lemma_distribute_difference(px * qy, py * qx, qz);
    lemma_swap(py, qz, qx);
    lemma_swap(pz, qy, qx);
    lemma_swap(px, qz, qy);
}

proof fn lemma_times_zero(k: int, g: int)
    by (nonlinear_arith)
    requires
        g == 0,
    ensures
        k * g == 0,
{
}

/// The cofactor expansion along `u` vanishes when `u` itself is put in the
/// place of the row that is expanded, whatever the six minors are.
proof fn lemma_cofactor_self(u: Point4, a: int, b: int, c: int, d: int, e: int, f: int)
    ensures
        (u.y * f - u.z * e + u.w * d) * u.x + (-(u.x * f) + u.z * c - u.w * b) * u.y + (u.x * e
            - u.y * c + u.w * a) * u.z + (-(u.x * d) + u.y * b - u.z * a) * u.w == 0,
{
    lemma_distribute(u.y * f, u.z * e, u.w * d, u.x);
    lemma_distribute(u.x * f, u.z * c, u.w * b, u.y);
    lemma_distribute(u.x * e, u.y * c, u.w * a, u.z);
    lemma_distribute(u.x * d, u.y * b, u.z * a, u.w);
    lemma_swap(u.y, f, u.x);
    lemma_swap(u.z, e, u.x);
    lemma_swap(u.w, d, u.x);
    lemma_swap(u.z, c, u.y);
    lemma_swap(u.w, b, u.y);
    lemma_swap(u.w, a, u.z);
}

/// The cofactor expansion along `u` vanishes when a row `t` is put in the
/// place of `u` for which the four three-dimensional expansions vanish.
proof fn lemma_cofactor_other(
    u: Point4,
    t: Point4,
    a: int,
    b: int,
    c: int,
    d: int,
    e: int,
    f: int,
)
    requires
        f * t.y - e * t.z + d * t.w == 0,
        f * t.x - c * t.z + b * t.w == 0,
        e * t.x - c * t.y + a * t.w == 0,
        d * t.x - b * t.y + a * t.z == 0,
    ensures
        (u.y * f - u.z * e + u.w * d) * t.x + (-(u.x * f) + u.z * c - u.w * b) * t.y + (u.x * e
            - u.y * c + u.w * a) * t.z + (-(u.x * d) + u.y * b - u.z * a) * t.w == 0,
{
    lemma_distribute(u.y * f, u.z * e, u.w * d, t.x);
    lemma_distribute(u.x * f, u.z * c, u.w * b, t.y);
    lemma_distribute(u.x * e, u.y * c, u.w * a, t.z);
    lemma_distribute(u.x * d, u.y * b, u.z * a, t.w);
    lemma_swap(u.y, f, t.x);
    lemma_swap(u.z, e, t.x);
    lemma_swap(u.w, d, t.x);
    lemma_swap(u.x, f, t.y);
    lemma_swap(u.z, c, t.y);
    lemma_swap(u.w, b, t.y);
    lemma_swap(u.x, e, t.z);
    lemma_swap(u.y, c, t.z);
    lemma_swap(u.w, a, t.z);
    lemma_swap(u.x, d, t.w);
    lemma_swap(u.y, b, t.w);
    lemma_swap(u.z, a, t.w);
    lemma_distribute(f * t.y, e * t.z, d * t.w, u.x);
    lemma_distribute(f * t.x, c * t.z, b * t.w, u.y);
    lemma_distribute(e * t.x, c * t.y, a * t.w, u.z);
    lemma_distribute(d * t.x, b * t.y, a * t.z, u.w);
    lemma_times_zero(u.x, f * t.y - e * t.z + d * t.w);
    lemma_times_zero(u.y, f * t.x - c * t.z + b * t.w);
    lemma_times_zero(u.z, e * t.x - c * t.y + a * t.w);
    lemma_times_zero(u.w, d * t.x - b * t.y + a * t.z);
}

/// The cross product is orthogonal to each of its three arguments.
pub proof fn lemma_cross_orthogonal(u: Point4, v: Point4, w: Point4)
    ensures
        dot(cross(u, v, w), u) == 0,
        dot(cross(u, v, w), v) == 0,
        dot(cross(u, v, w), w) == 0,
{
    let a = v.x * w.y - v.y * w.x;
    let b = v.x * w.z - v.z * w.x;
    let c = v.x * w.w - v.w * w.x;
    let d = v.y * w.z - v.z * w.y;
    let e = v.y * w.w - v.w * w.y;
    let f = v.z * w.w - v.w * w.z;
    lemma_cofactor_self(u, a, b, c, d, e, f);
    lemma_triple(v.y, v.z, v.w, w.y, w.z, w.w);
    lemma_triple(v.x, v.z, v.w, w.x, w.z, w.w);
    lemma_triple(v.x, v.y, v.w, w.x, w.y, w.w);
    lemma_triple(v.x, v.y, v.z, w.x, w.y, w.z);
    lemma_cofactor_other(u, v, a, b, c, d, e, f);
    lemma_cofactor_other(u, w, a, b, c, d, e, f);
}

proof fn lemma_product_bound(a: int, b: int, m: int, n: int)
    by (nonlinear_arith)
    requires
        -m <= a <= m,
        -n <= b <= n,
    ensures
        -(m * n) <= a * b <= m * n,
{
}

/// The exact product of two coordinates.
pub(crate) fn wide(a: i32, b: i32) -> (r: i128)
    ensures
        r == a * b,
        -0x4000_0000_0000_0000 <= r <= 0x4000_0000_0000_0000,
{
    proof {
        lemma_product_bound(a as int, b as int, 0x8000_0000, 0x8000_0000);
    }
    (a as i128) * (b as i128)
}

proof fn lemma_commute(a: int, b: int)
    by (nonlinear_arith)
    ensures
        a * b == b * a,
{
}

/// The exact product of a coordinate and a value of at most 64 bits.
pub(crate) fn times(k: i32, m: i128) -> (r: i128)
    requires
        -0x8000_0000_0000_0000 <= m <= 0x8000_0000_0000_0000,
    ensures
        r == k * m,
        r == m * k,
        -0x4000_0000_0000_0000_0000_0000 <= r <= 0x4000_0000_0000_0000_0000_0000,
{
    proof {
        lemma_product_bound(k as int, m as int, 0x8000_0000, 0x8000_0000_0000_0000);
        lemma_commute(k as int, m as int);
    }
    (k as i128) * m
}

/// The vector with the given exact coordinates, where each fits.
pub(crate) fn narrow(x: i128, y: i128, z: i128, w: i128) -> (r: Option<Vector4>)
    ensures
        r is Some <==> fits(point(x as int, y as int, z as int, w as int)),
        r matches Some(v) ==> v@ == point(x as int, y as int, z as int, w as int),
{
    let lo: i128 = -0x8000_0000;
    let hi: i128 = 0x7fff_ffff;
    if lo <= x && x <= hi && lo <= y && y <= hi && lo <= z && z <= hi && lo <= w && w <= hi {
        Some(Vector4 { x: x as i32, y: y as i32, z: z as i32, w: w as i32 })
    } else {
        None
    }
}

impl Vector4 {
    pub fn new(x: i32, y: i32, z: i32, w: i32) -> (v: Self)
        ensures
            v@ == point(x as int, y as int, z as int, w as int),
    {
        Vector4 { x, y, z, w }
    }

    /// The difference `self - other`, where it fits.
    pub fn minus(&self, other: &Vector4) -> (r: Option<Vector4>)
        ensures
            r is Some <==> fits(minus(self@, other@)),
            r matches Some(v) ==> v@ == minus(self@, other@),
    {
        narrow(
            self.x as i128 - other.x as i128,
            self.y as i128 - other.y as i128,
            self.z as i128 - other.z as i128,
            self.w as i128 - other.w as i128,
        )
    }
}

/// The inner product, exactly: it always fits in 66 bits.
pub fn dot4(v: &Vector4, u: &Vector4) -> (r: i128)
    ensures
        r == dot(v@, u@),
{
    wide(v.x, u.x) + wide(v.y, u.y) + wide(v.z, u.z) + wide(v.w, u.w)
}

/// The exact coordinates of the ternary cross product.
fn cross_exact(u: &Vector4, v: &Vector4, w: &Vector4) -> (r: (i128, i128, i128, i128))
    ensures
        point(r.0 as int, r.1 as int, r.2 as int, r.3 as int) == cross(u@, v@, w@),
{
    let a: i128 = wide(v.x, w.y) - wide(v.y, w.x);
    let b: i128 = wide(v.x, w.z) - wide(v.z, w.x);
    let c: i128 = wide(v.x, w.w) - wide(v.w, w.x);
    let d: i128 = wide(v.y, w.z) - wide(v.z, w.y);
    let e: i128 = wide(v.y, w.w) - wide(v.w, w.y);
    let f: i128 = wide(v.z, w.w) - wide(v.w, w.z);
    (
        times(u.y, f) - times(u.z, e) + times(u.w, d),
        -times(u.x, f) + times(u.z, c) - times(u.w, b),
        times(u.x, e) - times(u.y, c) + times(u.w, a),
        -times(u.x, d) + times(u.y, b) - times(u.z, a),
    )
}

/// The ternary cross product, where each of its coordinates fits.
pub fn cross4(u: &Vector4, v: &Vector4, w: &Vector4) -> (r: Option<Vector4>)
    ensures
        r is Some <==> fits(cross(u@, v@, w@)),
        r matches Some(p) ==> p@ == cross(u@, v@, w@),
{
    let c = cross_exact(u, v, w);
    narrow(c.0, c.1, c.2, c.3)
}

proof fn lemma_dot_symmetric(u: Point4, v: Point4)
    by (nonlinear_arith)
    ensures
        dot(u, v) == dot(v, u),
{
}

/// The point opposite to `p`.
pub open spec fn negated(p: Point4) -> Point4 {
    point(-p.x, -p.y, -p.z, -p.w)
}

proof fn lemma_times_difference(k: int, p: int, q: int)
    by (nonlinear_arith)
    ensures
        k * (p - q) == k * p - k * q,
{
}

proof fn lemma_times_negated(a: int, b: int)
    by (nonlinear_arith)
    ensures
        a * (-b) == -(a * b),
{
}

proof fn lemma_exchange(a: int, b: int, c: int)
    by (nonlinear_arith)
    ensures
        a * (b * c) == b * (a * c),
{
}

/// The cross product changes its sign where its last two arguments change
/// places.
pub proof fn lemma_cross_swap_last(u: Point4, v: Point4, w: Point4)
    ensures
        cross(u, w, v) == negated(cross(u, v, w)),
{
    lemma_commute(w.x, v.y);
    lemma_commute(w.y, v.x);
    lemma_commute(w.x, v.z);
    lemma_commute(w.z, v.x);
    lemma_commute(w.x, v.w);
    lemma_commute(w.w, v.x);
    lemma_commute(w.y, v.z);
    lemma_commute(w.z, v.y);
    lemma_commute(w.y, v.w);
    lemma_commute(w.w, v.y);
    lemma_commute(w.z, v.w);
    lemma_commute(w.w, v.z);
    lemma_times_negated(u.y, v.z * w.w - v.w * w.z);
    lemma_times_negated(u.z, v.y * w.w - v.w * w.y);
    lemma_times_negated(u.w, v.y * w.z - v.z * w.y);
    lemma_times_negated(u.x, v.z * w.w - v.w * w.z);
    lemma_times_negated(u.z, v.x * w.w - v.w * w.x);
    lemma_times_negated(u.w, v.x * w.z - v.z * w.x);
    lemma_times_negated(u.x, v.y * w.w - v.w * w.y);
    lemma_times_negated(u.y, v.x * w.w - v.w * w.x);
    lemma_times_negated(u.w, v.x * w.y - v.y * w.x);
    lemma_times_negated(u.x, v.y * w.z - v.z * w.y);
    lemma_times_negated(u.y, v.x * w.z - v.z * w.x);
    lemma_times_negated(u.z, v.x * w.y - v.y * w.x);
}

/// The cross product changes its sign where its first two arguments change
/// places.
pub proof fn lemma_cross_swap_first(u: Point4, v: Point4, w: Point4)
    ensures
        cross(v, u, w) == negated(cross(u, v, w)),
{
    lemma_times_difference(u.y, v.z * w.w, v.w * w.z);
    lemma_times_difference(u.z, v.y * w.w, v.w * w.y);
    lemma_times_difference(u.w, v.y * w.z, v.z * w.y);
    lemma_times_difference(u.x, v.z * w.w, v.w * w.z);
    lemma_times_difference(u.z, v.x * w.w, v.w * w.x);
    lemma_times_difference(u.w, v.x * w.z, v.z * w.x);
    lemma_times_difference(u.x, v.y * w.w, v.w * w.y);
    lemma_times_difference(u.y, v.x * w.w, v.w * w.x);
    lemma_times_difference(u.w, v.x * w.y, v.y * w.x);
    lemma_times_difference(u.x, v.y * w.z, v.z * w.y);
    lemma_times_difference(u.y, v.x * w.z, v.z * w.x);
    lemma_times_difference(u.z, v.x * w.y, v.y * w.x);
    lemma_times_difference(v.y, u.z * w.w, u.w * w.z);
    lemma_times_difference(v.z, u.y * w.w, u.w * w.y);
    lemma_times_difference(v.w, u.y * w.z, u.z * w.y);
    lemma_times_difference(v.x, u.z * w.w, u.w * w.z);
    lemma_times_difference(v.z, u.x * w.w, u.w * w.x);
    lemma_times_difference(v.w, u.x * w.z, u.z * w.x);
    lemma_times_difference(v.x, u.y * w.w, u.w * w.y);
    lemma_times_difference(v.y, u.x * w.w, u.w * w.x);
    lemma_times_difference(v.w, u.x * w.y, u.y * w.x);
    lemma_times_difference(v.x, u.y * w.z, u.z * w.y);
    lemma_times_difference(v.y, u.x * w.z, u.z * w.x);
    lemma_times_difference(v.z, u.x * w.y, u.y * w.x);
    lemma_exchange(u.y, v.z, w.w);
    lemma_exchange(u.y, v.w, w.z);
    lemma_exchange(u.z, v.y, w.w);
    lemma_exchange(u.z, v.w, w.y);
    lemma_exchange(u.w, v.y, w.z);
    lemma_exchange(u.w, v.z, w.y);
    lemma_exchange(u.x, v.z, w.w);
    lemma_exchange(u.x, v.w, w.z);
    lemma_exchange(u.z, v.x, w.w);
    lemma_exchange(u.z, v.w, w.x);
    lemma_exchange(u.w, v.x, w.z);
    lemma_exchange(u.w, v.z, w.x);
    lemma_exchange(u.x, v.y, w.w);
    lemma_exchange(u.x, v.w, w.y);
    lemma_exchange(u.y, v.x, w.w);
    lemma_exchange(u.y, v.w, w.x);
    lemma_exchange(u.w, v.x, w.y);
    lemma_exchange(u.w, v.y, w.x);
    lemma_exchange(u.x, v.y, w.z);
    lemma_exchange(u.x, v.z, w.y);
    lemma_exchange(u.y, v.x, w.z);
    lemma_exchange(u.y, v.z, w.x);
    lemma_exchange(u.z, v.x, w.y);
    lemma_exchange(u.z, v.y, w.x);
}

/// The cross product vanishes where its first two arguments are the same.
pub proof fn lemma_cross_repeated(u: Point4, w: Point4)
    ensures
        is_zero(cross(u, u, w)),
{
    let a = u.x * w.y - u.y * w.x;
    let b = u.x * w.z - u.z * w.x;
    let c = u.x * w.w - u.w * w.x;
    let d = u.y * w.z - u.z * w.y;
    let e = u.y * w.w - u.w * w.y;
    let f = u.z * w.w - u.w * w.z;
    lemma_triple(u.y, u.z, u.w, w.y, w.z, w.w);
    lemma_triple(u.x, u.z, u.w, w.x, w.z, w.w);
    lemma_triple(u.x, u.y, u.w, w.x, w.y, w.w);
    lemma_triple(u.x, u.y, u.z, w.x, w.y, w.z);
    lemma_commute(u.x, f);
    lemma_commute(u.y, f);
    lemma_commute(u.x, e);
    lemma_commute(u.z, e);
    lemma_commute(u.x, d);
    lemma_commute(u.w, d);
    lemma_commute(u.y, c);
    lemma_commute(u.z, c);
    lemma_commute(u.y, b);
    lemma_commute(u.w, b);
    lemma_commute(u.z, a);
    lemma_commute(u.w, a);
}

/// -1, 0 or 1 as `v` is negative, zero or positive.
pub open spec fn signum(v: int) -> int {
    if v > 0 {
        1
    } else if v < 0 {
        -1
    } else {
        0
    }
}

/// Whether a point lies on one of the four axes and is not the origin.
pub open spec fn on_axis(p: Point4) -> bool {
    ||| p.x != 0 && p.y == 0 && p.z == 0 && p.w == 0
    ||| p.x == 0 && p.y != 0 && p.z == 0 && p.w == 0
    ||| p.x == 0 && p.y == 0 && p.z != 0 && p.w == 0
    ||| p.x == 0 && p.y == 0 && p.z == 0 && p.w != 0
}

/// The point whose coordinates are the signs of those of `p`.
pub open spec fn direction(p: Point4) -> Point4 {
    point(signum(p.x), signum(p.y), signum(p.z), signum(p.w))
}

/// `k` times the point `v`.
pub open spec fn multiple(k: int, v: Point4) -> Point4 {
    point(k * v.x, k * v.y, k * v.z, k * v.w)
}

/// Whether `v` has the length 1 and `p` is a positive multiple of it.
pub open spec fn unit_along(v: Point4, p: Point4) -> bool {
    &&& dot(v, v) == 1
    &&& dot(p, v) > 0
    &&& p == multiple(dot(p, v), v)
}

/// The lattice vector of length 1 that points the way `p` does. The origin
/// points no way, and a point off the axes has no such lattice vector.
pub open spec fn normalized(p: Point4) -> Result<Point4, GeometryError> {
    if is_zero(p) {
        Err(GeometryError::DegenerateCameraBasis)
    } else if !on_axis(p) {
        Err(GeometryError::NoLatticeFrame)
    } else {
        Ok(direction(p))
    }
}

/// The frame `(a, b, c, d)` of a camera at `from` that looks at `to`:
/// `d` is the unit vector from the camera to its target, `a` the unit vector
/// along the cross product of `up`, `over` and `d`, `b` that along the cross
/// product of `over`, `d` and `a`, and `c` the cross product of `d`, `a` and
/// `b`. The first of `d`, `a`, `b` that cannot be had decides the error.
pub open spec fn frame(from: Point4, to: Point4, up: Point4, over: Point4) -> Result<
    (Point4, Point4, Point4, Point4),
    GeometryError,
> {
    match normalized(minus(to, from)) {
        Err(e) => Err(e),
        Ok(d) => match normalized(cross(up, over, d)) {
            Err(e) => Err(e),
            Ok(a) => match normalized(cross(over, d, a)) {
                Err(e) => Err(e),
                Ok(b) => Ok((a, b, cross(d, a, b), d)),
            },
        },
    }
}

/// Whether four vectors are pairwise orthogonal and each of the length 1.
pub open spec fn orthonormal(a: Point4, b: Point4, c: Point4, d: Point4) -> bool {
    &&& dot(a, b) == 0
    &&& dot(a, c) == 0
    &&& dot(b, c) == 0
    &&& dot(a, d) == 0
    &&& dot(b, d) == 0
    &&& dot(c, d) == 0
    &&& dot(a, a) == 1
    &&& dot(b, b) == 1
    &&& dot(c, c) == 1
    &&& dot(d, d) == 1
}

/// Whether a point is one of the eight lattice points of length 1.
pub open spec fn axis_unit(v: Point4) -> bool {
    ||| v == point(1, 0, 0, 0)
    ||| v == point(-1, 0, 0, 0)
    ||| v == point(0, 1, 0, 0)
    ||| v == point(0, -1, 0, 0)
    ||| v == point(0, 0, 1, 0)
    ||| v == point(0, 0, -1, 0)
    ||| v == point(0, 0, 0, 1)
    ||| v == point(0, 0, 0, -1)
}

/// The cross product of three lattice points of length 1 that are pairwise
/// orthogonal has the length 1.
proof fn lemma_cross_unit(d: Point4, a: Point4, b: Point4)
    requires
        axis_unit(d),
        axis_unit(a),
        axis_unit(b),
        dot(d, a) == 0,
        dot(d, b) == 0,
        dot(a, b) == 0,
    ensures
        dot(cross(d, a, b), cross(d, a, b)) == 1,
{
    lemma_small_product(a.x, b.y);
    lemma_small_product(a.y, b.x);
    lemma_small_product(a.x, b.z);
    lemma_small_product(a.z, b.x);
    lemma_small_product(a.x, b.w);
    lemma_small_product(a.w, b.x);
    lemma_small_product(a.y, b.z);
    lemma_small_product(a.z, b.y);
    lemma_small_product(a.y, b.w);
    lemma_small_product(a.w, b.y);
    lemma_small_product(a.z, b.w);
    lemma_small_product(a.w, b.z);
    let m = a.x * b.y - a.y * b.x;
    let n = a.x * b.z - a.z * b.x;
    let o = a.x * b.w - a.w * b.x;
    let p = a.y * b.z - a.z * b.y;
    let q = a.y * b.w - a.w * b.y;
    let r = a.z * b.w - a.w * b.z;
    lemma_small_product(d.y, r);
    lemma_small_product(d.z, q);
    lemma_small_product(d.w, p);
    lemma_small_product(d.x, r);
    lemma_small_product(d.z, o);
    lemma_small_product(d.w, n);
    lemma_small_product(d.x, q);
    lemma_small_product(d.y, o);
    lemma_small_product(d.w, m);
    lemma_small_product(d.x, p);
    lemma_small_product(d.y, n);
    lemma_small_product(d.z, m);
    let c = cross(d, a, b);
    lemma_small_product(c.x, c.x);
    lemma_small_product(c.y, c.y);
    lemma_small_product(c.z, c.z);
    lemma_small_product(c.w, c.w);
}

proof fn lemma_small_product(e: int, v: int)
    by (nonlinear_arith)
    ensures
        e == 0 ==> e * v == 0 && v * e == 0,
        e == 1 ==> e * v == v && v * e == v,
        e == -1 ==> e * v == -v && v * e == -v,
{
}

proof fn lemma_square(x: int)
    by (nonlinear_arith)
    ensures
        x * x >= 0,
        x != 0 ==> x * x >= 1,
        x * x == 1 ==> x == 1 || x == -1,
{
}

proof fn lemma_no_zero_divisor(x: int, y: int)
    by (nonlinear_arith)
    requires
        x * y == 0,
        x != 0,
    ensures
        y == 0,
{
}

/// Every lattice point of the length 1 is one of the eight on the axes.
pub proof fn lemma_length_one(v: Point4)
    requires
        dot(v, v) == 1,
    ensures
        axis_unit(v),
{
    lemma_square(v.x);
    lemma_square(v.y);
    lemma_square(v.z);
    lemma_square(v.w);
}

/// What `normalized` yields has the length 1, and the point it was made from
/// is a positive multiple of it.
pub proof fn lemma_normalized(p: Point4)
    ensures
        normalized(p) matches Ok(v) ==> unit_along(v, p) && axis_unit(v),
{
    if normalized(p) is Ok {
        let v = direction(p);
        lemma_small_product(v.x, v.x);
        lemma_small_product(v.y, v.y);
        lemma_small_product(v.z, v.z);
        lemma_small_product(v.w, v.w);
        lemma_small_product(v.x, p.x);
        lemma_small_product(v.y, p.y);
        lemma_small_product(v.z, p.z);
        lemma_small_product(v.w, p.w);
        lemma_small_product(v.x, dot(p, v));
        lemma_small_product(v.y, dot(p, v));
        lemma_small_product(v.z, dot(p, v));
        lemma_small_product(v.w, dot(p, v));
    }
}

/// `normalized` fails on no point that has a lattice vector of the length 1
/// pointing its way, and yields that vector.
pub proof fn lemma_normalized_complete(v: Point4, p: Point4)
    requires
        unit_along(v, p),
    ensures
        normalized(p) == Ok::<Point4, GeometryError>(v),
{
    lemma_length_one(v);
    let k = dot(p, v);
    lemma_small_product(v.x, k);
    lemma_small_product(v.y, k);
    lemma_small_product(v.z, k);
    lemma_small_product(v.w, k);
}

/// A point on an axis that is orthogonal to `q` has a direction that is
/// orthogonal to `q`.
proof fn lemma_direction_orthogonal(p: Point4, q: Point4)
    requires
        on_axis(p),
        dot(p, q) == 0,
    ensures
        dot(direction(p), q) == 0,
        dot(q, direction(p)) == 0,
{
    let v = direction(p);
    lemma_small_product(p.x, q.x);
    lemma_small_product(p.y, q.y);
    lemma_small_product(p.z, q.z);
    lemma_small_product(p.w, q.w);
    if p.x != 0 {
        lemma_no_zero_divisor(p.x, q.x);
    } else if p.y != 0 {
        lemma_no_zero_divisor(p.y, q.y);
    } else if p.z != 0 {
        lemma_no_zero_divisor(p.z, q.z);
    } else {
        lemma_no_zero_divisor(p.w, q.w);
    }
    lemma_small_product(v.x, q.x);
    lemma_small_product(v.y, q.y);
    lemma_small_product(v.z, q.z);
    lemma_small_product(v.w, q.w);
    lemma_dot_symmetric(v, q);
}

/// Every frame that `frame` yields is orthonormal, `d` points from the camera
/// to its target, and `a` and `b` point the way of their cross products.
pub proof fn lemma_frame_orthonormal(from: Point4, to: Point4, up: Point4, over: Point4)
    ensures
        frame(from, to, up, over) matches Ok((a, b, c, d)) ==> {
            &&& orthonormal(a, b, c, d)
            &&& unit_along(d, minus(to, from))
            &&& unit_along(a, cross(up, over, d))
            &&& unit_along(b, cross(over, d, a))
            &&& c == cross(d, a, b)
        },
{
    if frame(from, to, up, over) is Ok {
        let d = direction(minus(to, from));
        let a = direction(cross(up, over, d));
        let b = direction(cross(over, d, a));
        let c = cross(d, a, b);
        lemma_normalized(minus(to, from));
        lemma_normalized(cross(up, over, d));
        lemma_normalized(cross(over, d, a));
        lemma_cross_orthogonal(up, over, d);
        lemma_cross_orthogonal(over, d, a);
        lemma_cross_orthogonal(d, a, b);
        lemma_direction_orthogonal(cross(up, over, d), d);
        lemma_direction_orthogonal(cross(over, d, a), d);
        lemma_direction_orthogonal(cross(over, d, a), a);
        lemma_dot_symmetric(d, a);
        lemma_dot_symmetric(d, b);
        lemma_dot_symmetric(c, a);
        lemma_dot_symmetric(c, b);
        lemma_cross_unit(d, a, b);
    }
}

/// A camera that stands at its target has no frame, and neither has one
/// whose `up` and `over` are the same vector.
pub proof fn lemma_frame_degenerate(from: Point4, to: Point4, up: Point4, over: Point4)
    ensures
        to == from ==> frame(from, to, up, over) == Err::<
            (Point4, Point4, Point4, Point4),
            GeometryError,
        >(GeometryError::DegenerateCameraBasis),
        up == over && on_axis(minus(to, from)) ==> frame(from, to, up, over) == Err::<
            (Point4, Point4, Point4, Point4),
            GeometryError,
        >(GeometryError::DegenerateCameraBasis),
{
    if up == over {
        lemma_cross_repeated(up, direction(minus(to, from)));
    }
}

fn sign(v: i128) -> (r: i32)
    ensures
        r == signum(v as int),
{
    if v > 0 {
        1
    } else if v < 0 {
        -1
    } else {
        0
    }
}

/// The lattice vector of the length 1 along the point with the given exact
/// coordinates.
fn normalize(p: (i128, i128, i128, i128)) -> (r: Result<Vector4, GeometryError>)
    ensures
        match r {
            Ok(v) => normalized(point(p.0 as int, p.1 as int, p.2 as int, p.3 as int)) == Ok::<
                Point4,
                GeometryError,
            >(v@),
            Err(e) => normalized(point(p.0 as int, p.1 as int, p.2 as int, p.3 as int)) == Err::<
                Point4,
                GeometryError,
            >(e),
        },
{
    let x = p.0 != 0;
    let y = p.1 != 0;
    let z = p.2 != 0;
    let w = p.3 != 0;
    if !x && !y && !z && !w {
        Err(GeometryError::DegenerateCameraBasis)
    } else if (x && !y && !z && !w) || (!x && y && !z && !w) || (!x && !y && z && !w) || (!x && !y
        && !z && w) {
        Ok(Vector4 { x: sign(p.0), y: sign(p.1), z: sign(p.2), w: sign(p.3) })
    } else {
        Err(GeometryError::NoLatticeFrame)
    }
}

/// The orthonormal frame of a camera at `from` that looks at `to`, with the
/// hints `up` and `over`. On the lattice only the vectors along the axes have
/// the length 1, so a camera whose frame leaves the axes has none here.
pub fn calc_4d_matrix(from: Vector4, to: Vector4, up: Vector4, over: Vector4) -> (r: Result<
    (Vector4, Vector4, Vector4, Vector4),
    GeometryError,
>)
    ensures
        match r {
            Ok((a, b, c, d)) => {
                &&& frame(from@, to@, up@, over@) == Ok::<
                    (Point4, Point4, Point4, Point4),
                    GeometryError,
                >((a@, b@, c@, d@))
                &&& orthonormal(a@, b@, c@, d@)
                &&& unit_along(d@, minus(to@, from@))
                &&& unit_along(a@, cross(up@, over@, d@))
                &&& unit_along(b@, cross(over@, d@, a@))
                &&& c@ == cross(d@, a@, b@)
            },
            Err(e) => frame(from@, to@, up@, over@) == Err::<
                (Point4, Point4, Point4, Point4),
                GeometryError,
            >(e),
        },
{
    proof {
        lemma_frame_orthonormal(from@, to@, up@, over@);
    }
    let wd = match normalize(
        (
            to.x as i128 - from.x as i128,
            to.y as i128 - from.y as i128,
            to.z as i128 - from.z as i128,
            to.w as i128 - from.w as i128,
        ),
    ) {
        Ok(v) => v,
        Err(e) => {
            return Err(e);
        },
    };
    let wa = match normalize(cross_exact(&up, &over, &wd)) {
        Ok(v) => v,
        Err(e) => {
            return Err(e);
        },
    };
    let wb = match normalize(cross_exact(&over, &wd, &wa)) {
        Ok(v) => v,
        Err(e) => {
            return Err(e);
        },
    };
    let c = cross_exact(&wd, &wa, &wb);
    proof {
        let exact = cross(wd@, wa@, wb@);
        lemma_length_one(exact);
    }
    let wc = Vector4 { x: c.0 as i32, y: c.1 as i32, z: c.2 as i32, w: c.3 as i32 };
    Ok((wa, wb, wc, wd))
}

} // verus!
