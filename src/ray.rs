//! Half-lines through space.
use crate::vec3::{add_spec, scale_spec, Vec3};
use vstd::prelude::*;

verus! {

/// The half-line `origin + t * direction`.
#[derive(Clone, Copy, Debug, PartialEq, Eq, Structural)]
pub struct Ray {
    pub origin: Vec3,
    pub direction: Vec3,
}

impl Ray {
    pub open spec fn wf(&self) -> bool {
        self.origin.wf() && self.direction.wf()
    }

    /// The point of the ray at parameter `t`, as a spec value.
    pub open spec fn point_at_spec(&self, t: int) -> Vec3 {
        add_spec(self.origin, scale_spec(t, self.direction))
    }

    pub fn new(origin: Vec3, direction: Vec3) -> (r: Ray)
        ensures
            r == (Ray { origin, direction }),
    {
        Ray { origin, direction }
    }

    /// `origin + t * direction`.
    pub fn point_at_parameter(&self, t: i64) -> (r: Vec3)
        requires
            self.wf(),
            crate::fixed::in_range(t as int),
        ensures
            r == self.point_at_spec(t as int),
            r.wf(),
    {
        Vec3::add(self.origin, Vec3::scale(t, self.direction))
    }
}

} // verus!
