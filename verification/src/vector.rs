//! Fixed-point 4-vectors and the four coordinate axes.

use vstd::prelude::*;
use crate::fixed::SCALE;
use crate::model::VecModel;

verus! {

/// A 4-vector with fixed-point components (`i64` values scaled by `SCALE`).
#[derive(Clone, Copy, PartialEq, Eq, Structural, Debug)]
pub struct Vec4 {
    pub x: i64,
    pub y: i64,
    pub z: i64,
    pub w: i64,
}

impl View for Vec4 {
    type V = VecModel;

    open spec fn view(&self) -> VecModel {
        VecModel { x: self.x as int, y: self.y as int, z: self.z as int, w: self.w as int }
    }
}

/// One of the four coordinate axes of the space.
#[derive(Clone, Copy, PartialEq, Eq, Structural, Debug)]
pub enum Axis {
    X,
    Y,
    Z,
    W,
}

/// The unit vector along `a`, in the exact model (length `SCALE`).
pub open spec fn axis_model(a: Axis) -> VecModel {
    match a {
        Axis::X => VecModel { x: SCALE as int, y: 0, z: 0, w: 0 },
        Axis::Y => VecModel { x: 0, y: SCALE as int, z: 0, w: 0 },
        Axis::Z => VecModel { x: 0, y: 0, z: SCALE as int, w: 0 },
        Axis::W => VecModel { x: 0, y: 0, z: 0, w: SCALE as int },
    }
}

impl Vec4 {
    /// The vector with the given fixed-point components.
    pub fn new(x: i64, y: i64, z: i64, w: i64) -> (r: Vec4)
        ensures
            r@ == (VecModel { x: x as int, y: y as int, z: z as int, w: w as int }),
    {
        Vec4 { x, y, z, w }
    }

    /// The zero vector.
    pub fn zero() -> (r: Vec4)
        ensures
            r@ == (VecModel { x: 0, y: 0, z: 0, w: 0 }),
    {
        Vec4 { x: 0, y: 0, z: 0, w: 0 }
    }

    /// The unit vector along the given axis.
    pub fn unit(a: Axis) -> (r: Vec4)
        ensures
            r@ == axis_model(a),
    {
        match a {
            Axis::X => Vec4 { x: SCALE, y: 0, z: 0, w: 0 },
            Axis::Y => Vec4 { x: 0, y: SCALE, z: 0, w: 0 },
            Axis::Z => Vec4 { x: 0, y: 0, z: SCALE, w: 0 },
            Axis::W => Vec4 { x: 0, y: 0, z: 0, w: SCALE },
        }
    }
}

} // verus!
