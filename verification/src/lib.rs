//! Exact four-dimensional geometry on the integer lattice: vectors, the
//! ternary cross product, orthonormal camera frames, rotations in the planes
//! through the fourth axis, and the tesseract with its triangle topology.
//!
//! Every coordinate is an `i32`. A motion whose exact result leaves that
//! range reports `GeometryError::Overflow` and changes nothing. The lattice
//! has the four quarter turns for rotations and the vectors along the axes
//! for vectors of the length 1; what asks for another says so in its error.

use crate::matrix::{transform, Matrix4};
use crate::vector::{fits, narrow, point, wide, Point4, Vector4};
pub use crate::hypercube::HyperCube;
use vstd::prelude::*;

pub mod hypercube;
pub mod matrix;
mod polytope;
pub mod tesseract;
pub mod vector;

verus! {

/// A coordinate plane through the fourth axis in which a rotation acts.
#[derive(Clone, Copy, Debug, PartialEq, Eq, Structural)]
pub enum Rotation {
    XW,
    YW,
    ZW,
}

/// One of the four coordinate axes.
#[derive(Clone, Copy, Debug, PartialEq, Eq, Structural)]
pub enum Axis {
    X,
    Y,
    Z,
    W,
}

/// Why an operation produced no result.
#[derive(Clone, Copy, Debug, PartialEq, Eq, Structural)]
pub enum GeometryError {
    /// The camera's direction, up and over vectors do not span three
    /// dimensions, so some basis vector of the frame is zero.
    DegenerateCameraBasis,
    /// Some vector of the camera's frame runs along no axis, so no lattice
    /// vector of the length 1 points its way.
    NoLatticeFrame,
    /// The pair given for the cosine and sine of an angle does not lie on the
    /// unit circle.
    NotARotation,
    /// An exact coordinate of the result does not fit in an `i32`.
    Overflow,
}

/// Where the shift by `dw` along the fourth axis takes a point.
pub open spec fn translated(p: Point4, dw: int) -> Point4 {
    point(p.x, p.y, p.z, p.w + dw)
}

/// Where the stretch of one axis by `factor` takes a point.
pub open spec fn scaled(p: Point4, axis: Axis, factor: int) -> Point4 {
    match axis {
        Axis::X => point(p.x * factor, p.y, p.z, p.w),
        Axis::Y => point(p.x, p.y * factor, p.z, p.w),
        Axis::Z => point(p.x, p.y, p.z * factor, p.w),
        Axis::W => point(p.x, p.y, p.z, p.w * factor),
    }
}

/// A shift along the fourth axis and the opposite shift after it put every
/// point back, so the way back fits wherever the point did; and no shift
/// moves a point along the other three axes.
pub proof fn lemma_translate_inverse(p: Point4, dw: int)
    ensures
        translated(translated(p, dw), -dw) == p,
        fits(p) ==> fits(translated(translated(p, dw), -dw)),
        translated(p, dw).x == p.x,
        translated(p, dw).y == p.y,
        translated(p, dw).z == p.z,
{
}

/// Two stretches of one axis amount to the stretch by the product of their
/// factors, so a second factor that brings the product to 1 puts every point
/// back; and a stretch of one axis moves no point along another.
pub proof fn lemma_scale_twice(p: Point4, axis: Axis, f: int, g: int)
    ensures
        scaled(scaled(p, axis, f), axis, g) == scaled(p, axis, f * g),
        f * g == 1 ==> scaled(scaled(p, axis, f), axis, g) == p,
        axis != Axis::X ==> scaled(p, axis, f).x == p.x,
        axis != Axis::Y ==> scaled(p, axis, f).y == p.y,
        axis != Axis::Z ==> scaled(p, axis, f).z == p.z,
        axis != Axis::W ==> scaled(p, axis, f).w == p.w,
{
    assert((p.x * f) * g == p.x * (f * g)) by (nonlinear_arith);
    assert((p.y * f) * g == p.y * (f * g)) by (nonlinear_arith);
    assert((p.z * f) * g == p.z * (f * g)) by (nonlinear_arith);
    assert((p.w * f) * g == p.w * (f * g)) by (nonlinear_arith);
    assert(f * g == 1 ==> p.x * (f * g) == p.x) by (nonlinear_arith);
    assert(f * g == 1 ==> p.y * (f * g) == p.y) by (nonlinear_arith);
    assert(f * g == 1 ==> p.z * (f * g) == p.z) by (nonlinear_arith);
    assert(f * g == 1 ==> p.w * (f * g) == p.w) by (nonlinear_arith);
}

/// One corner of a polytope.
#[derive(Clone, Copy, Debug, PartialEq, Eq, Structural)]
pub struct Vertex {
    pub position: Vector4,
}

impl View for Vertex {
    type V = Point4;

    open spec fn view(&self) -> Point4 {
        self.position@
    }
}

impl Vertex {
    pub fn new(x: i32, y: i32, z: i32, w: i32) -> (v: Self)
        ensures
            v@ == point(x as int, y as int, z as int, w as int),
    {
        Self { position: Vector4::new(x, y, z, w) }
    }

    /// Moves the vertex to the product of the matrix and its position.
    pub fn apply_matrix(&mut self, matrix: Matrix4) -> (r: Result<(), GeometryError>)
        ensures
            r is Ok <==> fits(transform(matrix, old(self)@)),
            r is Ok ==> final(self)@ == transform(matrix, old(self)@),
            r matches Err(e) ==> e == GeometryError::Overflow && *final(self) == *old(self),
    {
        match matrix.transform(&self.position) {
            Some(p) => {
                self.position = p;
                Ok(())
            },
            None => Err(GeometryError::Overflow),
        }
    }

    /// Shifts the vertex by `dw` along the fourth axis.
    pub fn translate(&mut self, dw: i32) -> (r: Result<(), GeometryError>)
        ensures
            r is Ok <==> fits(translated(old(self)@, dw as int)),
            r is Ok ==> final(self)@ == translated(old(self)@, dw as int),
            r matches Err(e) ==> e == GeometryError::Overflow && *final(self) == *old(self),
    {
        let p = self.position;
        match narrow(p.x as i128, p.y as i128, p.z as i128, p.w as i128 + dw as i128) {
            Some(q) => {
                self.position = q;
                Ok(())
            },
            None => Err(GeometryError::Overflow),
        }
    }

    /// Stretches one coordinate of the vertex by `factor`.
    pub fn scale(&mut self, axis: Axis, factor: i32) -> (r: Result<(), GeometryError>)
        ensures
            r is Ok <==> fits(scaled(old(self)@, axis, factor as int)),
            r is Ok ==> final(self)@ == scaled(old(self)@, axis, factor as int),
            r matches Err(e) ==> e == GeometryError::Overflow && *final(self) == *old(self),
    {
        let p = self.position;
        let q = match axis {
            Axis::X => narrow(wide(p.x, factor), p.y as i128, p.z as i128, p.w as i128),
            Axis::Y => narrow(p.x as i128, wide(p.y, factor), p.z as i128, p.w as i128),
            Axis::Z => narrow(p.x as i128, p.y as i128, wide(p.z, factor), p.w as i128),
            Axis::W => narrow(p.x as i128, p.y as i128, p.z as i128, wide(p.w, factor)),
        };
        match q {
            Some(q) => {
                self.position = q;
                Ok(())
            },
            None => Err(GeometryError::Overflow),
        }
    }
}

} // verus!
