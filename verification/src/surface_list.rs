//! The scene aggregate: an ordered list of spheres, scanned linearly
//! with a shrinking upper window so the nearest hit wins.

use vstd::prelude::*;
use crate::ray::Ray;
use crate::ray::HitRecord;
use crate::ray::ray_wf;
use crate::sphere::Sphere;
use crate::sphere::sphere_wf;
use crate::sphere::sphere_hit_spec;
use crate::sphere::lemma_sphere_hit_in_window;
use crate::sphere::lemma_sphere_hit_narrow;
use crate::surface::Surface;
use crate::surface::T_CAP;
use crate::material::mat_wf;

verus! {

pub struct SurfaceList {
    pub surfaces: Vec<Box<Sphere>>,
}

pub open spec fn list_wf(l: SurfaceList) -> bool {
    forall|i: int| 0 <= i < l.surfaces.len() ==> sphere_wf(*#[trigger] l.surfaces[i])
}

/// The scan's result over a prefix: the hit of the last member inside
/// the window narrowed to the best earlier hit, or that earlier hit.
pub open spec fn list_hit_spec(ss: Seq<Box<Sphere>>, ray: Ray, t_min: i128, t_max: i128) -> Option<
    HitRecord,
>
    decreases ss.len(),
{
    if ss.len() == 0 {
        None
    } else {
        let prev = list_hit_spec(ss.drop_last(), ray, t_min, t_max);
        let bound = match prev {
            Some(h) => h.t,
            None => t_max,
        };
        match sphere_hit_spec(*ss.last(), ray, t_min, bound) {
            Some(h) => Some(h),
            None => prev,
        }
    }
}

/// The nearest-hit law of the aggregate: when the scan reports a hit,
/// it is some member's hit over the whole window and no member hits at
/// a smaller parameter; when it reports a miss, no member hits at all.
#[verifier::rlimit(100)]
pub proof fn lemma_list_hit_nearest(ss: Seq<Box<Sphere>>, ray: Ray, t_min: i128, t_max: i128)
    requires
        crate::vec3::dot_spec(ray.direction, ray.direction) >= 1,
        0 <= t_min,
        t_max <= T_CAP,
    ensures
        match list_hit_spec(ss, ray, t_min, t_max) {
            Some(h) => {
                &&& exists|i: int|
                    0 <= i < ss.len() && sphere_hit_spec(*#[trigger] ss[i], ray, t_min, t_max)
                        == Some(h)
                &&& forall|j: int|
                    0 <= j < ss.len() ==> match sphere_hit_spec(
                        *#[trigger] ss[j],
                        ray,
                        t_min,
                        t_max,
                    ) {
                        Some(g) => h.t <= g.t,
                        None => true,
                    }
            },
            None => forall|j: int|
                0 <= j < ss.len() ==> sphere_hit_spec(*#[trigger] ss[j], ray, t_min, t_max)
                    is None,
        },
    decreases ss.len(),
{
    if ss.len() > 0 {
        let prefix = ss.drop_last();
        lemma_list_hit_nearest(prefix, ray, t_min, t_max);
        let prev = list_hit_spec(prefix, ray, t_min, t_max);
        let bound = match prev {
            Some(h) => h.t,
            None => t_max,
        };
        let last = *ss.last();
        assert(forall|j: int| 0 <= j < ss.len() - 1 ==> ss[j] == prefix[j]);
        match prev {
            Some(hp) => {
                assert(t_min < hp.t < t_max) by {
                    let i = choose|i: int|
                        0 <= i < prefix.len() && sphere_hit_spec(
                            *#[trigger] prefix[i],
                            ray,
                            t_min,
                            t_max,
                        ) == Some(hp);
                    lemma_sphere_hit_in_window(*prefix[i], ray, t_min, t_max);
                }
                lemma_sphere_hit_in_window(last, ray, t_min, bound);
                lemma_sphere_hit_narrow(last, ray, t_min, bound, t_max);
                match sphere_hit_spec(last, ray, t_min, bound) {
                    Some(h) => {
                        assert(sphere_hit_spec(last, ray, t_min, t_max) == Some(h));
                        assert(sphere_hit_spec(*ss[ss.len() - 1], ray, t_min, t_max) == Some(h));
                    },
                    None => {
                        let i = choose|i: int|
                            0 <= i < prefix.len() && sphere_hit_spec(
                                *#[trigger] prefix[i],
                                ray,
                                t_min,
                                t_max,
                            ) == Some(hp);
                        assert(sphere_hit_spec(*ss[i], ray, t_min, t_max) == Some(hp));
                    },
                }
            },
            None => {
                match sphere_hit_spec(last, ray, t_min, bound) {
                    Some(h) => {
                        assert(sphere_hit_spec(*ss[ss.len() - 1], ray, t_min, t_max) == Some(h));
                    },
                    None => {},
                }
            },
        }
    }
}

impl SurfaceList {
    pub fn new() -> (l: SurfaceList)
        ensures
            l.surfaces@.len() == 0,
    {
        SurfaceList { surfaces: Vec::new() }
    }

    /// Add a surface to the scene.
    pub fn push(&mut self, s: Box<Sphere>)
        ensures
            final(self).surfaces@ == old(self).surfaces@.push(s),
    {
        self.surfaces.push(s);
    }
}

impl Surface for SurfaceList {
    open spec fn hit_spec(&self, ray: Ray, t_min: i128, t_max: i128) -> Option<HitRecord> {
        list_hit_spec(self.surfaces@, ray, t_min, t_max)
    }

    open spec fn surf_wf(&self) -> bool {
        list_wf(*self)
    }

    fn intersect(&self, ray: &Ray, t_min: i128, t_max: i128, rec: &mut HitRecord) -> (b: bool) {
        let mut temp_rec: HitRecord = HitRecord::new();
        let mut hit_anything: bool = false;
        let mut closest_so_far: i128 = t_max;
        let n: usize = self.surfaces.len();
        let mut i: usize = 0;
        while i < n
            invariant
                0 <= i <= n,
                n == self.surfaces@.len(),
                list_wf(*self),
                ray_wf(*ray),
                0 <= t_min,
                t_max <= T_CAP,
                closest_so_far <= t_max,
                hit_anything ==> list_hit_spec(self.surfaces@.take(i as int), *ray, t_min, t_max)
                    == Some(temp_rec),
                hit_anything ==> closest_so_far == temp_rec.t,
                hit_anything ==> mat_wf(temp_rec.material),
                !hit_anything ==> list_hit_spec(self.surfaces@.take(i as int), *ray, t_min, t_max)
                    is None,
                !hit_anything ==> closest_so_far == t_max,
            decreases n - i,
        {
            let ghost prefix = self.surfaces@.take(i as int);
            let surface: &Box<Sphere> = &self.surfaces[i];
            let got: bool = (&**surface).intersect(ray, t_min, closest_so_far, &mut temp_rec);
            proof {
                assert(self.surfaces@.take(i as int + 1).drop_last() =~= prefix);
                assert(self.surfaces@.take(i as int + 1).last() == self.surfaces@[i as int]);
            }
            if got {
                hit_anything = true;
                closest_so_far = temp_rec.t;
            }
            i = i + 1;
        }
        proof {
            assert(self.surfaces@.take(n as int) =~= self.surfaces@);
        }
        if hit_anything {
            *rec = temp_rec;
        }
        hit_anything
    }
}

} // verus!
