//! Three-dimensional vectors of fixed-point scalars.

use vstd::prelude::*;
use crate::fixed::{add_sat, mul_fixed, mul_fixed_spec, sat64};

verus! {

/// A 3D vector. Each component is a fixed-point scalar (see [`crate::fixed`]).
#[derive(Clone, Copy, Debug, PartialEq, Eq, Structural)]
pub struct Vec3 {
    pub x: i64,
    pub y: i64,
    pub z: i64,
}

impl Vec3 {
    /// The zero vector.
    pub open spec fn zero_spec() -> Vec3 {
        Vec3 { x: 0, y: 0, z: 0 }
    }

    /// Build a vector from its components.
    pub fn new(x: i64, y: i64, z: i64) -> (r: Vec3)
        ensures
            r == (Vec3 { x, y, z }),
    {
        Vec3 { x, y, z }
    }

    /// The zero vector.
    pub fn zero() -> (r: Vec3)
        ensures
            r == Vec3::zero_spec(),
    {
        Vec3 { x: 0, y: 0, z: 0 }
    }

    /// Componentwise saturating sum.
    pub open spec fn plus_spec(self, other: Vec3) -> Vec3 {
        Vec3 {
            x: sat64(self.x + other.x) as i64,
            y: sat64(self.y + other.y) as i64,
            z: sat64(self.z + other.z) as i64,
        }
    }

    /// Componentwise saturating sum.
    pub fn plus(self, other: Vec3) -> (r: Vec3)
        ensures
            r == self.plus_spec(other),
    {
        Vec3 {
            x: add_sat(self.x, other.x),
            y: add_sat(self.y, other.y),
            z: add_sat(self.z, other.z),
        }
    }

    /// Each component multiplied by the fixed-point scalar `s`.
    pub open spec fn scaled_spec(self, s: int) -> Vec3 {
        Vec3 {
            x: mul_fixed_spec(self.x as int, s) as i64,
            y: mul_fixed_spec(self.y as int, s) as i64,
            z: mul_fixed_spec(self.z as int, s) as i64,
        }
    }

    /// Each component multiplied by the fixed-point scalar `s`.
    pub fn scaled(self, s: i64) -> (r: Vec3)
        ensures
            r == self.scaled_spec(s as int),
    {
        Vec3 {
            x: mul_fixed(self.x, s),
            y: mul_fixed(self.y, s),
            z: mul_fixed(self.z, s),
        }
    }
}

} // verus!
