//! The scene: an ordered collection of spheres, searched for the nearest
//! intersection by shrinking the upper parameter bound to the closest hit
//! found so far.

use vstd::prelude::*;
use crate::fixed::T_MAX_FX;
use crate::hittable::HitRecord;
use crate::ray::{Ray, ray_wf};
use crate::sphere::{Sphere, sphere_wf, sph_hits, sph_valid_hit};

verus! {

pub struct HittableList {
    pub objects: Vec<Sphere>,
}

/// Every surface in the scene is well formed.
pub open spec fn list_wf(l: HittableList) -> bool {
    forall|j: int| 0 <= j < l.objects@.len() ==> sphere_wf(#[trigger] l.objects@[j])
}

impl HittableList {
    pub fn new() -> (l: HittableList)
        ensures
            l.objects@.len() == 0,
    {
        HittableList { objects: Vec::new() }
    }

    pub fn clear(&mut self)
        ensures
            final(self).objects@.len() == 0,
    {
        self.objects.clear();
    }

    pub fn add(&mut self, object: Sphere)
        ensures
            final(self).objects@ == old(self).objects@.push(object),
    {
        self.objects.push(object);
    }

    /// The nearest intersection among all surfaces within `(t_min, t_max]`:
    /// no result exactly when no surface is hit in that range; otherwise
    /// the returned record is a faithful hit of some surface, lies in
    /// range, and no surface has a hit strictly closer.
    pub fn hit(&self, r: &Ray, t_min: i64, t_max: i64) -> (res: Option<HitRecord>)
        requires
            list_wf(*self),
            ray_wf(*r),
            0 <= t_min <= t_max <= T_MAX_FX,
        ensures
            res is None ==> forall|j: int|
                0 <= j < self.objects@.len() ==> !sph_hits(
                    #[trigger] self.objects@[j],
                    *r,
                    t_min as int,
                    t_max as int,
                ),
            res matches Some(h) ==> {
                &&& t_min < h.t <= t_max
                &&& exists|j: int|
                    0 <= j < self.objects@.len() && sph_valid_hit(
                        #[trigger] self.objects@[j],
                        *r,
                        h,
                    )
                &&& forall|j: int|
                    0 <= j < self.objects@.len() ==> !sph_hits(
                        #[trigger] self.objects@[j],
                        *r,
                        t_min as int,
                        h.t - 1,
                    )
            },
    {
        let mut best: Option<HitRecord> = None;
        let mut closest: i64 = t_max;
        let mut idx: usize = 0;
        while idx < self.objects.len()
            invariant
                list_wf(*self),
                ray_wf(*r),
                0 <= t_min <= closest <= t_max <= T_MAX_FX,
                idx <= self.objects@.len(),
                best is None ==> closest == t_max,
                best is None ==> forall|j: int|
                    0 <= j < idx ==> !sph_hits(
                        #[trigger] self.objects@[j],
                        *r,
                        t_min as int,
                        t_max as int,
                    ),
                best matches Some(h) ==> {
                    &&& h.t == closest
                    &&& t_min < h.t <= t_max
                    &&& exists|j: int|
                        0 <= j < idx && sph_valid_hit(#[trigger] self.objects@[j], *r, h)
                },
                best matches Some(h) ==> forall|j: int|
                    0 <= j < idx ==> !sph_hits(
                        #[trigger] self.objects@[j],
                        *r,
                        t_min as int,
                        closest - 1,
                    ),
            decreases self.objects@.len() - idx,
        {
            let obj = &self.objects[idx];
            let found = obj.hit(r, t_min, closest);
            match found {
                Some(h2) => {
                    proof {
                        assert forall|j: int| 0 <= j < idx + 1 implies !sph_hits(
                            #[trigger] self.objects@[j],
                            *r,
                            t_min as int,
                            h2.t - 1,
                        ) by {
                            if j < idx {
                                if best is Some {
                                    assert(!sph_hits(
                                        self.objects@[j],
                                        *r,
                                        t_min as int,
                                        closest - 1,
                                    ));
                                } else {
                                    assert(!sph_hits(
                                        self.objects@[j],
                                        *r,
                                        t_min as int,
                                        t_max as int,
                                    ));
                                }
                            } else {
                                assert(!sph_hits(self.objects@[j], *r, t_min as int, h2.t - 1));
                            }
                        }
                    }
                    closest = h2.t;
                    best = Some(h2);
                },
                None => {
                    proof {
                        assert(!sph_hits(self.objects@[idx as int], *r, t_min as int,
                        closest as int));
                    }
                },
            }
            idx = idx + 1;
        }
        best
    }
}

} // verus!
