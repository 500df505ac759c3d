//! The intersection capability: anything that can report its nearest
//! ray intersection inside a parametric window.

use vstd::prelude::*;
use crate::ray::Ray;
use crate::ray::HitRecord;
use crate::ray::ray_wf;
use crate::material::mat_wf;

verus! {

/// The largest `t_max` an intersection query accepts (2^32), standing
/// in for an unbounded upper window.
pub const T_CAP: i128 = 4294967296;

/// A surface: reports the nearest intersection of a ray with parameter
/// strictly inside `(t_min, t_max)`, writing it into `rec`. On a miss
/// the record is left untouched. `hit_spec` pins the exact result.
pub trait Surface {
    spec fn hit_spec(&self, ray: Ray, t_min: i128, t_max: i128) -> Option<HitRecord>;

    spec fn surf_wf(&self) -> bool;

    fn intersect(&self, ray: &Ray, t_min: i128, t_max: i128, rec: &mut HitRecord) -> (b: bool)
        requires
            self.surf_wf(),
            ray_wf(*ray),
            0 <= t_min,
            t_max <= T_CAP,
        ensures
            b == (self.hit_spec(*ray, t_min, t_max) is Some),
            b ==> Some(*final(rec)) == self.hit_spec(*ray, t_min, t_max),
            b ==> mat_wf(final(rec).material),
            !b ==> *final(rec) == *old(rec),
    ;
}

} // verus!
