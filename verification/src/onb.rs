//! Orthonormal bases.

use vstd::prelude::*;
use crate::rtweekend::scalar::ONE;
use crate::rtweekend::vec3::Vec3;

pub mod pdf;

verus! {

/// Rank of 0.9: a unit vector with a larger share along the first axis is too
/// close to that axis to span a basis with it.
pub const STEEP: i64 = 0x3FEC_CCCC_CCCC_CCCD;

/// Three unit vectors at right angles to one another.
#[derive(Clone, Copy, Debug, PartialEq, Eq)]
pub struct Onb {
    pub axis: [Vec3; 3],
}

impl Onb {
    /// The axis with which a basis around the unit vector `unit_w` is spanned:
    /// the second axis when `unit_w` leans on the first, else the first.
    pub fn helper_axis(unit_w: &Vec3) -> (a: Vec3)
        ensures
            unit_w.e[0] > STEEP || unit_w.e[0] < -STEEP ==> a.e[0] == 0 && a.e[1] == ONE && a.e[2]
                == 0,
            -STEEP <= unit_w.e[0] <= STEEP ==> a.e[0] == ONE && a.e[1] == 0 && a.e[2] == 0,
    {
        if unit_w.e[0] > STEEP || unit_w.e[0] < -STEEP {
            Vec3 { e: [0, ONE, 0] }
        } else {
            Vec3 { e: [ONE, 0, 0] }
        }
    }
}

} // verus!
