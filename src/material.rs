//! Surface materials and how they scatter an incoming ray.
use vstd::prelude::*;
use crate::fixed::{in_range, sadd, ssub, smul, sdiv, ssqrt, fx_add, fx_sub, fx_mul, fx_div, fx_sqrt, ONE};
use crate::hittablelist::HitRecord;
use crate::random::{get_random_in_unit_sphere, random_double};
use crate::ray::Ray;
use crate::vec3::{Vec3, vadd, vdot, vneg, vscale, vsub, vunit};

verus! {

/// A diffuse surface.
#[derive(Clone, Copy, Debug, PartialEq, Eq, Structural)]
pub struct Lambertian {
    pub albedo: Vec3,
}

/// A reflective surface; `fuzz` blurs the reflection.
#[derive(Clone, Copy, Debug, PartialEq, Eq, Structural)]
pub struct Metal {
    pub albedo: Vec3,
    pub fuzz: i64,
}

/// A refractive surface with refractive index `ir`.
#[derive(Clone, Copy, Debug, PartialEq, Eq, Structural)]
pub struct Dielectric {
    pub ir: i64,
}

#[derive(Clone, Copy, Debug, PartialEq, Eq, Structural)]
pub enum Material {
    Lambertian(Lambertian),
    Metal(Metal),
    Dielectric(Dielectric),
}

/// The mirror image of `v` about the normal `n`: `v - 2·(v·n)·n`.
pub open spec fn reflect_s(v: Vec3, n: Vec3) -> Vec3 {
    vsub(v, vscale(smul(2 * ONE, vdot(v, n)), n))
}

pub open spec fn min_one(x: int) -> int {
    if x > ONE {
        ONE as int
    } else {
        x
    }
}

pub open spec fn abs_s(x: int) -> int {
    if x < 0 {
        -x
    } else {
        x
    }
}

/// Snell's law in vector form: the part of the refracted direction
/// perpendicular to `n`, plus the part along `-n` that completes a unit vector.
pub open spec fn refract_s(uv: Vec3, n: Vec3, eta: int) -> Vec3 {
    let cos_theta = min_one(vdot(vneg(uv), n));
    let perp = vscale(eta, vadd(uv, vscale(cos_theta, n)));
    let parallel = vscale(-ssqrt(abs_s(ssub(ONE as int, vdot(perp, perp)))), n);
    vadd(perp, parallel)
}

/// Schlick's approximation: `r0 + (1 - r0)(1 - cosine)^5` with
/// `r0 = ((1 - ri) / (1 + ri))^2`.
pub open spec fn reflectance_s(cosine: int, ref_idx: int) -> int {
    let r0 = sdiv(ssub(ONE as int, ref_idx), sadd(ONE as int, ref_idx));
    let r0 = smul(r0, r0);
    let m = ssub(ONE as int, cosine);
    let p5 = smul(smul(smul(smul(m, m), m), m), m);
    sadd(r0, smul(ssub(ONE as int, r0), p5))
}

pub open spec fn white() -> Vec3 {
    Vec3 { x: ONE, y: ONE, z: ONE }
}

/// The diffuse bounce: the normal plus a random unit vector, or the normal
/// itself when the sum vanishes.
pub open spec fn lambertian_scatter(l: Lambertian, rec: HitRecord, sample: Vec3) -> Option<(Ray, Vec3)> {
    let d = vadd(rec.normal, sample);
    let dir = if d.x == 0 && d.y == 0 && d.z == 0 {
        rec.normal
    } else {
        d
    };
    Some((Ray { origin: rec.p, direction: dir }, l.albedo))
}

/// The fuzzed mirror direction of a metal surface.
pub open spec fn metal_direction(m: Metal, ray: Ray, rec: HitRecord, sample: Vec3) -> Vec3 {
    vadd(reflect_s(vunit(ray.direction), rec.normal), vscale(m.fuzz as int, sample))
}

/// The metal bounce, absorbed when the fuzzed direction points into the surface.
pub open spec fn metal_scatter(m: Metal, ray: Ray, rec: HitRecord, sample: Vec3) -> Option<(Ray, Vec3)> {
    let dir = metal_direction(m, ray, rec, sample);
    if vdot(dir, rec.normal) > 0 {
        Some((Ray { origin: rec.p, direction: dir }, m.albedo))
    } else {
        None
    }
}

pub open spec fn refraction_ratio(d: Dielectric, front_face: bool) -> int {
    if front_face {
        sdiv(ONE as int, d.ir as int)
    } else {
        d.ir as int
    }
}

/// The glass bounce: reflect on total internal reflection or when the uniform
/// draw `u` falls below the reflectance, else refract.
pub open spec fn dielectric_direction(d: Dielectric, ray: Ray, rec: HitRecord, u: int) -> Vec3 {
    let ratio = refraction_ratio(d, rec.front_face);
    let unit = vunit(ray.direction);
    let cos_theta = min_one(vdot(vneg(unit), rec.normal));
    let sin_theta = ssqrt(ssub(ONE as int, smul(cos_theta, cos_theta)));
    let cannot_refract = smul(ratio, sin_theta) > ONE;
    if cannot_refract || reflectance_s(cos_theta, ratio) > u {
        reflect_s(unit, rec.normal)
    } else {
        refract_s(unit, rec.normal, ratio)
    }
}

pub open spec fn dielectric_scatter(d: Dielectric, ray: Ray, rec: HitRecord, u: int) -> Option<(Ray, Vec3)> {
    Some((Ray { origin: rec.p, direction: dielectric_direction(d, ray, rec, u) }, white()))
}

/// A draw for one scattering event: a point `p` strictly inside the unit
/// sphere and a uniform value `u` in `[0, 1)`.
pub open spec fn draw_ok(p: Vec3, u: int) -> bool {
    p.wf() && vdot(p, p) < ONE && 0 <= u < ONE
}

/// How `m` scatters, given the draw `(p, u)`: diffuse surfaces offset the
/// normal by `p` normalized, metal blurs by `p`, glass compares `u` with the
/// reflectance.
pub open spec fn scatter_s(m: Material, ray: Ray, rec: HitRecord, p: Vec3, u: int) -> Option<(Ray, Vec3)> {
    match m {
        Material::Lambertian(l) => lambertian_scatter(l, rec, vunit(p)),
        Material::Metal(mt) => metal_scatter(mt, ray, rec, p),
        Material::Dielectric(d) => dielectric_scatter(d, ray, rec, u),
    }
}

fn min_one_exec(x: i64) -> (r: i64)
    ensures
        r == min_one(x as int),
{
    if x > ONE {
        ONE
    } else {
        x
    }
}

impl Lambertian {
    /// Scatters around the normal, offset by `sample` (a random unit vector).
    pub fn scatter(&self, _ray: &Ray, rec: &HitRecord, sample: Vec3) -> (r: Option<(Ray, Vec3)>)
        requires
            rec.wf(),
            sample.wf(),
        ensures
            r == lambertian_scatter(*self, *rec, sample),
            r is Some,
    {
        let mut scatter_direction = rec.normal.add(&sample);
        if scatter_direction.is_zero() {
            scatter_direction = rec.normal;
        }
        Some((Ray::new(rec.p, scatter_direction), self.albedo))
    }
}

impl Metal {
    pub fn reflect(v: Vec3, n: Vec3) -> (r: Vec3)
        requires
            v.wf(),
            n.wf(),
        ensures
            r == reflect_s(v, n),
            r.wf(),
    {
        let k = fx_mul(2 * ONE, v.dot(&n));
        v.sub(&n.scale(k))
    }

    /// Mirrors the ray about the normal, blurred by `fuzz · sample` (a point
    /// of the unit sphere).
    pub fn scatter(&self, ray: &Ray, rec: &HitRecord, sample: Vec3) -> (r: Option<(Ray, Vec3)>)
        requires
            ray.wf(),
            rec.wf(),
            sample.wf(),
            in_range(self.fuzz as int),
        ensures
            r == metal_scatter(*self, *ray, *rec, sample),
            r is None <==> vdot(metal_direction(*self, *ray, *rec, sample), rec.normal) <= 0,
    {
        let unit_vec = ray.direction.unit();
        let reflected = Metal::reflect(unit_vec, rec.normal);
        let dir = reflected.add(&sample.scale(self.fuzz));
        if dir.dot(&rec.normal) > 0 {
            Some((Ray::new(rec.p, dir), self.albedo))
        } else {
            None
        }
    }
}

impl Dielectric {
    pub fn refract(uv: Vec3, n: Vec3, etai_over_etat: i64) -> (r: Vec3)
        requires
            uv.wf(),
            n.wf(),
            in_range(etai_over_etat as int),
        ensures
            r == refract_s(uv, n, etai_over_etat as int),
            r.wf(),
    {
        let cos_theta = min_one_exec(uv.neg().dot(&n));
        let r_out_perp = uv.add(&n.scale(cos_theta)).scale(etai_over_etat);
        let d = fx_sub(ONE, r_out_perp.magnitude2());
        let ad = if d < 0 { -d } else { d };
        let r_out_parallel = n.scale(-fx_sqrt(ad));
        r_out_perp.add(&r_out_parallel)
    }

    pub fn reflectance(cosine: i64, ref_idx: i64) -> (r: i64)
        requires
            in_range(cosine as int),
            in_range(ref_idx as int),
        ensures
            r == reflectance_s(cosine as int, ref_idx as int),
            in_range(r as int),
    {
        let r0 = fx_div(fx_sub(ONE, ref_idx), fx_add(ONE, ref_idx));
        let r0 = fx_mul(r0, r0);
        let m = fx_sub(ONE, cosine);
        let p5 = fx_mul(fx_mul(fx_mul(fx_mul(m, m), m), m), m);
        fx_add(r0, fx_mul(fx_sub(ONE, r0), p5))
    }

    /// Reflects or refracts; `u` is the uniform draw in `[0, 1)` compared
    /// with the reflectance. Glass absorbs nothing.
    pub fn scatter(&self, ray: &Ray, rec: &HitRecord, u: i64) -> (r: Option<(Ray, Vec3)>)
        requires
            ray.wf(),
            rec.wf(),
            in_range(self.ir as int),
        ensures
            r == dielectric_scatter(*self, *ray, *rec, u as int),
            r matches Some((_, a)) && a == white(),
    {
        let attenuation = Vec3 { x: ONE, y: ONE, z: ONE };
        let refraction_ratio = if rec.front_face {
            fx_div(ONE, self.ir)
        } else {
            self.ir
        };
        let unit_direction = ray.direction.unit();
        let cos_theta = min_one_exec(unit_direction.neg().dot(&rec.normal));
        let sin_theta = fx_sqrt(fx_sub(ONE, fx_mul(cos_theta, cos_theta)));
        let cannot_refract = fx_mul(refraction_ratio, sin_theta) > ONE;
        let direction = if cannot_refract || Dielectric::reflectance(cos_theta, refraction_ratio) > u {
            Metal::reflect(unit_direction, rec.normal)
        } else {
            Dielectric::refract(unit_direction, rec.normal, refraction_ratio)
        };
        Some((Ray::new(rec.p, direction), attenuation))
    }
}

impl Material {
    pub open spec fn wf(&self) -> bool {
        match *self {
            Material::Lambertian(l) => l.albedo.wf(),
            Material::Metal(m) => m.albedo.wf() && in_range(m.fuzz as int),
            Material::Dielectric(d) => in_range(d.ir as int),
        }
    }

    /// Draws the sample that the material needs and scatters: a point of the
    /// unit sphere for diffuse surfaces (normalized) and for metal, a uniform
    /// value for glass.
    pub fn scatter(&self, ray: &Ray, rec: &HitRecord) -> (r: Option<(Ray, Vec3)>)
        requires
            self.wf(),
            ray.wf(),
            rec.wf(),
        ensures
            exists|p: Vec3, u: int| draw_ok(p, u) && r == #[trigger] scatter_s(*self, *ray, *rec, p, u),
            self is Lambertian ==> r is Some,
            self is Dielectric ==> (r matches Some((_, a)) && a == white()),
            r matches Some((s, _)) ==> s.origin == rec.p && s.wf(),
    {
        match self {
            Material::Lambertian(l) => {
                let p = get_random_in_unit_sphere();
                let r = l.scatter(ray, rec, p.unit());
                assert(r == scatter_s(*self, *ray, *rec, p, 0));
                r
            },
            Material::Metal(m) => {
                let v = get_random_in_unit_sphere();
                let r = m.scatter(ray, rec, v);
                assert(r == scatter_s(*self, *ray, *rec, v, 0));
                r
            },
            Material::Dielectric(d) => {
                let u = random_double();
                let r = d.scatter(ray, rec, u);
                let z = Vec3 { x: 0, y: 0, z: 0 };
                assert(vdot(z, z) == 0);
                assert(r == scatter_s(*self, *ray, *rec, z, u as int));
                r
            },
        }
    }
}

} // verus!
