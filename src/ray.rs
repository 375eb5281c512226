//! Rays `origin + t · direction`.
use vstd::prelude::*;
use crate::fixed::in_range;
use crate::vec3::{Vec3, vadd, vscale};

verus! {

#[derive(Clone, Copy, Debug, PartialEq, Eq, Structural)]
pub struct Ray {
    pub origin: Vec3,
    pub direction: Vec3,
}

/// The point at parameter `t` along `r`.
pub open spec fn ray_at(r: Ray, t: int) -> Vec3 {
    vadd(r.origin, vscale(t, r.direction))
}

impl Ray {
    pub open spec fn wf(&self) -> bool {
        self.origin.wf() && self.direction.wf()
    }

    pub fn new(origin: Vec3, direction: Vec3) -> (r: Ray)
        ensures
            r == (Ray { origin, direction }),
    {
        Ray { origin, direction }
    }

    pub fn at(&self, t: i64) -> (r: Vec3)
        requires
            self.wf(),
            in_range(t as int),
        ensures
            r == ray_at(*self, t as int),
            r.wf(),
    {
        let d = self.direction.scale(t);
        self.origin.add(&d)
    }
}

} // verus!
