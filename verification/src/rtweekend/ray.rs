//! Rays as the tracer stores them.

use vstd::prelude::*;
use crate::rtweekend::vec3::{Point3, Vec3};

verus! {

/// A ray: where it starts, where it heads, and the moment at which it was
/// cast.
#[derive(Clone, Copy, Debug, PartialEq, Eq)]
pub struct Ray {
    pub dir: Vec3,
    pub ori: Point3,
    pub tm: i64,
}

impl Ray {
    /// The ray that starts at the origin at time zero and heads nowhere.
    pub fn new() -> (r: Ray)
        ensures
            r.tm == 0,
            r.dir.is_zero(),
            r.ori.is_zero(),
    {
        Ray { dir: Vec3::new(), ori: Vec3::new(), tm: 0 }
    }
}

} // verus!
