//! Spheres and the ray/sphere intersection.
use vstd::prelude::*;
use crate::fixed::{in_range, tdiv, sadd, ssub, smul, sdiv, ssqrt, fx_add, fx_sub, fx_mul, fx_div, fx_sqrt, lemma_tdiv_monotone, lemma_isqrt_exists, ONE};
use crate::hittablelist::{HitRecord, facing_normal, lemma_facing_normal_opposes};
use crate::material::Material;
use crate::ray::{Ray, ray_at};
use crate::vec3::{Vec3, vdot, vsub, vdiv};

verus! {

pub struct Sphere {
    pub radius: i64,
    pub center: Vec3,
    pub material: Material,
}

/// The two roots of the sphere's quadratic along `r`, smaller first as the
/// formula gives them, or `None` when the discriminant is negative.
pub open spec fn sphere_roots(s: Sphere, r: Ray) -> Option<(int, int)> {
    let oc = vsub(r.origin, s.center);
    let a = vdot(r.direction, r.direction);
    let half_b = vdot(oc, r.direction);
    let c = ssub(vdot(oc, oc), smul(s.radius as int, s.radius as int));
    let disc = ssub(smul(half_b, half_b), smul(a, c));
    if disc < 0 {
        None
    } else {
        let sq = ssqrt(disc);
        Some((sdiv(ssub(-half_b, sq), a), sdiv(sadd(-half_b, sq), a)))
    }
}

pub open spec fn in_window(t: int, t_min: int, t_max: int) -> bool {
    t_min < t < t_max
}

/// The parameter of the nearest root in `(t_min, t_max)`, if any.
pub open spec fn sphere_hit_t(s: Sphere, r: Ray, t_min: int, t_max: int) -> Option<int> {
    match sphere_roots(s, r) {
        None => None,
        Some((r1, r2)) => if in_window(r1, t_min, t_max) {
            Some(r1)
        } else if in_window(r2, t_min, t_max) {
            Some(r2)
        } else {
            None
        },
    }
}

/// The record of a hit on `s` at parameter `t`.
pub open spec fn hit_record_at(s: Sphere, r: Ray, t: int) -> HitRecord {
    let p = ray_at(r, t);
    let outward = vdiv(vsub(p, s.center), s.radius as int);
    HitRecord {
        p,
        normal: facing_normal(r.direction, outward),
        t: t as i64,
        front_face: vdot(r.direction, outward) < 0,
        material: s.material,
    }
}

pub open spec fn sphere_hit(s: Sphere, r: Ray, t_min: int, t_max: int) -> Option<HitRecord> {
    match sphere_hit_t(s, r, t_min, t_max) {
        None => None,
        Some(t) => Some(hit_record_at(s, r, t)),
    }
}

proof fn lemma_dot_self_nonneg(v: Vec3)
    ensures
        vdot(v, v) >= 0,
{
    assert(v.x * v.x + v.y * v.y + v.z * v.z >= 0) by (nonlinear_arith);
    lemma_tdiv_monotone(0, v.x * v.x + v.y * v.y + v.z * v.z, ONE as int);
    assert(tdiv(0, ONE as int) == 0);
}

/// The first root never exceeds the second.
pub proof fn lemma_roots_ordered(s: Sphere, r: Ray)
    ensures
        sphere_roots(s, r) matches Some((r1, r2)) ==> r1 <= r2,
{
    let oc = vsub(r.origin, s.center);
    let a = vdot(r.direction, r.direction);
    let half_b = vdot(oc, r.direction);
    let c = ssub(vdot(oc, oc), smul(s.radius as int, s.radius as int));
    let disc = ssub(smul(half_b, half_b), smul(a, c));
    if disc >= 0 {
        lemma_dot_self_nonneg(r.direction);
        let sq = ssqrt(disc);
        if disc > 0 {
            assert(disc * ONE > 0) by (nonlinear_arith) requires disc > 0;
            lemma_isqrt_exists(disc * ONE);
        }
        let lo = ssub(-half_b, sq);
        let hi = sadd(-half_b, sq);
        assert(lo <= hi);
        if a > 0 {
            lemma_tdiv_monotone(lo * ONE, hi * ONE, a);
        }
    }
}

/// Narrowing the window keeps the nearest root, or shows that every root in
/// the wider window lies at or past the narrower window's end.
pub proof fn lemma_narrow_window(s: Sphere, r: Ray, t_min: int, mid: int, t_max: int)
    requires
        mid <= t_max,
    ensures
        sphere_hit_t(s, r, t_min, mid) matches Some(t) ==> sphere_hit_t(s, r, t_min, t_max) == Some(t),
        sphere_hit_t(s, r, t_min, mid) is None ==> (sphere_hit_t(s, r, t_min, t_max) matches Some(t) ==> t >= mid),
        sphere_hit_t(s, r, t_min, t_max) matches Some(t) ==> in_window(t, t_min, t_max),
{
    lemma_roots_ordered(s, r);
}

/// Every hit that a sphere reports lies strictly inside the query window, and
/// its normal never points along the ray.
pub proof fn lemma_sphere_hit_in_window_facing(s: Sphere, r: Ray, t_min: int, t_max: int)
    ensures
        sphere_hit(s, r, t_min, t_max) matches Some(h) ==> t_min < h.t < t_max,
        sphere_hit(s, r, t_min, t_max) matches Some(h) ==> vdot(h.normal, r.direction) <= 0,
{
    if let Some(t) = sphere_hit_t(s, r, t_min, t_max) {
        let p = ray_at(r, t);
        let outward = vdiv(vsub(p, s.center), s.radius as int);
        lemma_facing_normal_opposes(r.direction, outward);
    }
}

impl Sphere {
    pub open spec fn wf(&self) -> bool {
        self.center.wf() && in_range(self.radius as int) && self.material.wf()
    }

    pub fn new(center: Vec3, radius: i64, material: Material) -> (r: Sphere)
        ensures
            r == (Sphere { center, radius, material }),
    {
        Sphere { center, radius, material }
    }

    /// The nearest intersection with `t` strictly inside `(t_min, t_max)`.
    pub fn hit(&self, ray: &Ray, t_min: i64, t_max: i64) -> (res: Option<HitRecord>)
        requires
            self.wf(),
            ray.wf(),
        ensures
            res == sphere_hit(*self, *ray, t_min as int, t_max as int),
            res matches Some(h) ==> t_min < h.t < t_max && vdot(h.normal, ray.direction) <= 0 && h.wf(),
    {
        let oc = ray.origin.sub(&self.center);
        let a = ray.direction.magnitude2();
        let half_b = oc.dot(&ray.direction);
        let c = fx_sub(oc.magnitude2(), fx_mul(self.radius, self.radius));
        let discriminant = fx_sub(fx_mul(half_b, half_b), fx_mul(a, c));
        if discriminant < 0 {
            return None;
        }
        let sqrtd = fx_sqrt(discriminant);
        let mut root = fx_div(fx_sub(-half_b, sqrtd), a);
        if !(t_min < root && root < t_max) {
            root = fx_div(fx_add(-half_b, sqrtd), a);
            if !(t_min < root && root < t_max) {
                return None;
            }
        }
        let p = ray.at(root);
        let mut rec = HitRecord {
            p,
            normal: Vec3::zero(),
            t: root,
            front_face: false,
            material: self.material,
        };
        let outward_normal = p.sub(&self.center).div_scalar(self.radius);
        rec.set_face_normal(ray, outward_normal);
        proof {
            lemma_sphere_hit_in_window_facing(*self, *ray, t_min as int, t_max as int);
        }
        Some(rec)
    }
}

} // verus!
