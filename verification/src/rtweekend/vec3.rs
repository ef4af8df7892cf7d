//! Triples of ranks: points, directions and colors as the tracer stores them.

use vstd::prelude::*;
use crate::rtweekend::scalar::{negate, negate_spec};

verus! {

/// Rank of 1e-8: a component below it in magnitude counts as zero.
pub const NEAR_ZERO: i64 = 0x3E45_798E_E230_8C3A;

/// Three ranks, one per axis.
#[derive(Clone, Copy, Debug, PartialEq, Eq)]
pub struct Vec3 {
    pub e: [i64; 3],
}

pub type Point3 = Vec3;

pub type Color = Vec3;

impl Vec3 {
    /// The component on `axis` is within `NEAR_ZERO` of zero.
    pub open spec fn tiny(self, axis: int) -> bool {
        -NEAR_ZERO < self.e[axis] < NEAR_ZERO
    }

    /// Every component has rank zero.
    pub open spec fn is_zero(self) -> bool {
        forall|axis: int| 0 <= axis < 3 ==> self.e[axis] == 0
    }

    /// The zero vector.
    pub fn new() -> (r: Vec3)
        ensures
            r.is_zero(),
    {
        Vec3 { e: [0, 0, 0] }
    }

    /// Every component is within `NEAR_ZERO` of zero.
    pub fn near_zero(&self) -> (r: bool)
        ensures
            r == (self.tiny(0) && self.tiny(1) && self.tiny(2)),
    {
        -NEAR_ZERO < self.e[0] && self.e[0] < NEAR_ZERO && -NEAR_ZERO < self.e[1] && self.e[1]
            < NEAR_ZERO && -NEAR_ZERO < self.e[2] && self.e[2] < NEAR_ZERO
    }

    /// The opposite vector: every component with its sign turned.
    pub open spec fn negate_spec(self) -> Vec3 {
        Vec3 { e: [negate_spec(self.e[0]), negate_spec(self.e[1]), negate_spec(self.e[2])] }
    }

    /// The opposite vector.
    pub fn negate(&self) -> (r: Vec3)
        ensures
            r == self.negate_spec(),
    {
        let r = Vec3 { e: [negate(self.e[0]), negate(self.e[1]), negate(self.e[2])] };
        assert(r.e =~= self.negate_spec().e);
        r
    }
}

} // verus!
