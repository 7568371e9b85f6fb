//! The structured description of a ray-surface intersection.

use vstd::prelude::*;
use crate::material::Material;
use crate::ray::Ray;
use crate::vec3::{Vec3, Point3, bounded, dot_raw};

verus! {

/// Produced only on a successful intersection. The normal is oriented
/// against the incoming ray and `front_face` records whether the ray
/// approached from the outward-normal side.
#[derive(Clone, Copy, PartialEq, Eq, Structural, Debug)]
pub struct HitRecord {
    pub p: Point3,
    pub normal: Vec3,
    pub t: i64,
    pub front_face: bool,
    pub material: Material,
}

impl HitRecord {
    /// Orients the stored normal against the incoming ray: `front_face`
    /// becomes true exactly when the ray direction points against the
    /// outward normal, and the stored normal is the outward normal or its
    /// negation accordingly.
    pub fn set_face_normal(&mut self, r: &Ray, outward_normal: &Vec3)
        requires
            bounded(*outward_normal, 0x4000_0000_0000_0000),
            bounded(r.direction, 0x4000_0000_0000_0000),
        ensures
            final(self).front_face == (dot_raw(r.direction, *outward_normal) < 0),
            final(self).normal == if final(self).front_face {
                *outward_normal
            } else {
                (Vec3 {
                    x: (-outward_normal.x) as i64,
                    y: (-outward_normal.y) as i64,
                    z: (-outward_normal.z) as i64,
                })
            },
            final(self).p == old(self).p,
            final(self).t == old(self).t,
            final(self).material == old(self).material,
    {
        proof {
            crate::vec3::lemma_dot_raw_bound(r.direction, *outward_normal, 0x4000_0000_0000_0000);
        }
        let d: i128 = (r.direction.x as i128) * (outward_normal.x as i128) + (
        r.direction.y as i128) * (outward_normal.y as i128) + (r.direction.z as i128) * (
        outward_normal.z as i128);
        self.front_face = d < 0;
        self.normal = if self.front_face {
            *outward_normal
        } else {
            Vec3 { x: -outward_normal.x, y: -outward_normal.y, z: -outward_normal.z }
        };
    }
}

} // verus!
