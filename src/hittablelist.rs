//! Hit records and the scene: an insertion-ordered list of spheres with a
//! closest-hit query.
use vstd::prelude::*;
use crate::material::Material;
use crate::ray::Ray;
use crate::sphere::{Sphere, sphere_hit, sphere_hit_t, hit_record_at, lemma_narrow_window};
use crate::vec3::{Vec3, vdot, vneg, lemma_dot_neg, lemma_dot_sym};

verus! {

/// What an intersection query reports: the point, the normal facing the
/// incoming ray, the ray parameter, which side was hit, and the material there.
#[derive(Clone, Copy, Debug, PartialEq, Eq, Structural)]
pub struct HitRecord {
    pub p: Vec3,
    pub normal: Vec3,
    pub t: i64,
    pub front_face: bool,
    pub material: Material,
}

/// The normal that faces against `dir`, given the outward normal.
pub open spec fn facing_normal(dir: Vec3, outward: Vec3) -> Vec3 {
    if vdot(dir, outward) < 0 {
        outward
    } else {
        vneg(outward)
    }
}

/// The oriented normal never points along the ray.
pub proof fn lemma_facing_normal_opposes(dir: Vec3, outward: Vec3)
    requires
        outward.wf(),
    ensures
        vdot(facing_normal(dir, outward), dir) <= 0,
{
    lemma_dot_sym(dir, outward);
    lemma_dot_neg(outward, dir);
}

impl HitRecord {
    pub open spec fn wf(&self) -> bool {
        self.p.wf() && self.normal.wf() && self.material.wf()
    }

    /// Records which side was hit and orients the normal against the ray.
    pub fn set_face_normal(&mut self, r: &Ray, outward_normal: Vec3)
        requires
            r.wf(),
            outward_normal.wf(),
        ensures
            final(self).front_face == (vdot(r.direction, outward_normal) < 0),
            final(self).normal == facing_normal(r.direction, outward_normal),
            vdot(final(self).normal, r.direction) <= 0,
            final(self).p == old(self).p,
            final(self).t == old(self).t,
            final(self).material == old(self).material,
    {
        proof {
            lemma_facing_normal_opposes(r.direction, outward_normal);
        }
        self.front_face = r.direction.dot(&outward_normal) < 0;
        self.normal = if self.front_face {
            outward_normal
        } else {
            outward_normal.neg()
        };
    }
}

/// What every intersectable primitive offers: a hit strictly inside the
/// window, with its normal facing against the ray.
pub trait Hittable {
    spec fn hittable_wf(&self) -> bool;

    fn hit(&self, r: &Ray, t_min: i64, t_max: i64) -> (res: Option<HitRecord>)
        requires
            self.hittable_wf(),
            r.wf(),
        ensures
            res matches Some(h) ==> t_min < h.t < t_max && vdot(h.normal, r.direction) <= 0 && h.wf(),
    ;
}

impl Hittable for Sphere {
    open spec fn hittable_wf(&self) -> bool {
        self.wf()
    }

    fn hit(&self, r: &Ray, t_min: i64, t_max: i64) -> (res: Option<HitRecord>) {
        Sphere::hit(self, r, t_min, t_max)
    }
}

impl Hittable for HittableList {
    open spec fn hittable_wf(&self) -> bool {
        self.wf()
    }

    fn hit(&self, r: &Ray, t_min: i64, t_max: i64) -> (res: Option<HitRecord>) {
        HittableList::hit(self, r, t_min, t_max)
    }
}

/// The nearest hit among `objs` with its parameter in `(t_min, t_max)`.
pub open spec fn is_closest_hit(objs: Seq<Sphere>, r: Ray, t_min: int, t_max: int, h: HitRecord) -> bool {
    &&& exists|j: int|
        0 <= j < objs.len() && sphere_hit_t(#[trigger] objs[j], r, t_min, t_max) == Some(h.t as int)
            && h == hit_record_at(objs[j], r, h.t as int)
    &&& forall|j: int|
        0 <= j < objs.len() ==> (#[trigger] sphere_hit_t(objs[j], r, t_min, t_max) matches Some(t) ==> h.t <= t)
}

/// No sphere of `objs` is hit with its parameter in `(t_min, t_max)`.
pub open spec fn misses_all(objs: Seq<Sphere>, r: Ray, t_min: int, t_max: int) -> bool {
    forall|j: int| 0 <= j < objs.len() ==> #[trigger] sphere_hit_t(objs[j], r, t_min, t_max) is None
}

/// What the scan of the first `n` spheres yields: each sphere is queried up to
/// the nearest hit found so far and replaces it when hit.
pub open spec fn closest_scan(objs: Seq<Sphere>, r: Ray, t_min: int, t_max: int, n: int) -> Option<HitRecord>
    decreases n,
{
    if n <= 0 {
        None
    } else {
        let prev = closest_scan(objs, r, t_min, t_max, n - 1);
        let bound = match prev {
            None => t_max,
            Some(h) => h.t as int,
        };
        match sphere_hit(objs[n - 1], r, t_min, bound) {
            Some(h) => Some(h),
            None => prev,
        }
    }
}

/// After scanning `prefix`: `rec` is its closest hit and `closest` the bound
/// for the rest, or no sphere of it was hit and the bound is still `t_max`.
pub open spec fn scan_state(prefix: Seq<Sphere>, r: Ray, t_min: int, t_max: int, rec: Option<HitRecord>, closest: int) -> bool {
    match rec {
        None => closest == t_max && misses_all(prefix, r, t_min, t_max),
        Some(h) => closest == h.t && is_closest_hit(prefix, r, t_min, t_max, h),
    }
}

/// One step of the scan: querying sphere `i` within `(t_min, closest)`.
#[verifier::rlimit(40)]
proof fn lemma_scan_step(
    objs: Seq<Sphere>,
    i: int,
    r: Ray,
    t_min: int,
    t_max: int,
    rec: Option<HitRecord>,
    closest: int,
    got: Option<HitRecord>,
)
    requires
        0 <= i < objs.len(),
        closest <= t_max,
        scan_state(objs.take(i), r, t_min, t_max, rec, closest),
        got == sphere_hit(objs[i], r, t_min, closest),
    ensures
        got matches Some(h) ==> scan_state(objs.take(i + 1), r, t_min, t_max, Some(h), h.t as int),
        got is None ==> scan_state(objs.take(i + 1), r, t_min, t_max, rec, closest),
{
    let prev = objs.take(i);
    let next = objs.take(i + 1);
    assert(next[i] == objs[i]);
    assert(forall|j: int| 0 <= j < i ==> next[j] == #[trigger] prev[j]);
    lemma_narrow_window(objs[i], r, t_min, closest, t_max);
    match got {
        Some(h) => {
            assert(sphere_hit_t(next[i], r, t_min, t_max) == Some(h.t as int));
            assert forall|j: int| 0 <= j < next.len()
                implies (#[trigger] sphere_hit_t(next[j], r, t_min, t_max) matches Some(t) ==> h.t <= t) by {
                if j < i {
                    assert(next[j] == prev[j]);
                }
            }
        },
        None => {
            if rec is None {
                assert forall|j: int| 0 <= j < next.len()
                    implies #[trigger] sphere_hit_t(next[j], r, t_min, t_max) is None by {
                    if j < i {
                        assert(next[j] == prev[j]);
                    }
                }
            } else {
                let h = rec->0;
                let j0 = choose|j: int|
                    0 <= j < prev.len() && sphere_hit_t(#[trigger] prev[j], r, t_min, t_max) == Some(h.t as int)
                        && h == hit_record_at(prev[j], r, h.t as int);
                assert(next[j0] == prev[j0]);
                assert forall|j: int| 0 <= j < next.len()
                    implies (#[trigger] sphere_hit_t(next[j], r, t_min, t_max) matches Some(t) ==> h.t <= t) by {
                    if j < i {
                        assert(next[j] == prev[j]);
                    }
                }
            }
        },
    }
}

/// The scene: spheres in the order they were added.
pub struct HittableList {
    pub objects: Vec<Sphere>,
}

impl HittableList {
    pub open spec fn wf(&self) -> bool {
        forall|i: int| 0 <= i < self.objects@.len() ==> (#[trigger] self.objects@[i]).wf()
    }

    /// An empty scene.
    pub fn new() -> (r: HittableList)
        ensures
            r.objects@ == Seq::<Sphere>::empty(),
            r.wf(),
    {
        HittableList { objects: Vec::new() }
    }

    /// Appends a sphere to the scene.
    pub fn add(&mut self, obj: Sphere)
        ensures
            final(self).objects@ == old(self).objects@.push(obj),
    {
        self.objects.push(obj);
    }

    /// The closest hit with `t` in `(t_min, t_max)`, or `None` when no sphere
    /// is hit in that window.
    pub fn hit(&self, r: &Ray, t_min: i64, t_max: i64) -> (res: Option<HitRecord>)
        requires
            self.wf(),
            r.wf(),
        ensures
            res == closest_scan(self.objects@, *r, t_min as int, t_max as int, self.objects@.len() as int),
            res is None <==> misses_all(self.objects@, *r, t_min as int, t_max as int),
            res matches Some(h) ==> is_closest_hit(self.objects@, *r, t_min as int, t_max as int, h),
            res matches Some(h) ==> t_min < h.t < t_max && vdot(h.normal, r.direction) <= 0 && h.wf(),
    {
        let mut closest_so_far = t_max;
        let mut rec: Option<HitRecord> = None;
        let n = self.objects.len();
        let mut i: usize = 0;
        while i < n
            invariant
                self.wf(),
                r.wf(),
                n == self.objects@.len(),
                0 <= i <= n,
                scan_state(self.objects@.take(i as int), *r, t_min as int, t_max as int, rec, closest_so_far as int),
                rec == closest_scan(self.objects@, *r, t_min as int, t_max as int, i as int),
                rec matches Some(h) ==> t_min < h.t < t_max && vdot(h.normal, r.direction) <= 0 && h.wf(),
            decreases n - i,
        {
            let obj = &self.objects[i];
            let got = obj.hit(r, t_min, closest_so_far);
            proof {
                lemma_scan_step(self.objects@, i as int, *r, t_min as int, t_max as int, rec, closest_so_far as int, got);
            }
            match got {
                Some(h) => {
                    closest_so_far = h.t;
                    rec = Some(h);
                },
                None => {},
            }
            i = i + 1;
        }
        proof {
            assert(self.objects@.take(n as int) =~= self.objects@);
        }
        rec
    }
}

} // verus!
