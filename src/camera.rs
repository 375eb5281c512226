//! A thin-lens camera that maps image-plane coordinates to world rays.
use vstd::prelude::*;
use crate::fixed::{in_range, smul, sdiv, fx_mul, fx_div, ONE};
use crate::random::get_random_in_unit_disk;
use crate::ray::Ray;
use crate::vec3::{Vec3, vadd, vcross, vdiv, vdot, vscale, vsub, vunit};

verus! {

pub struct Camera {
    pub origin: Vec3,
    pub lower_left_corner: Vec3,
    pub horizontal: Vec3,
    pub vertical: Vec3,
    pub u: Vec3,
    pub v: Vec3,
    pub w: Vec3,
    pub lens_radius: i64,
}

/// The camera at `lookfrom` aimed at `lookat`. `half_tan` is the tangent of
/// half the vertical field of view.
pub open spec fn camera_s(
    lookfrom: Vec3,
    lookat: Vec3,
    vup: Vec3,
    half_tan: int,
    aspect_ratio: int,
    aperture: int,
    focus_dist: int,
) -> Camera {
    let viewport_height = smul(2 * ONE, half_tan);
    let viewport_width = smul(aspect_ratio, viewport_height);
    let w = vunit(vsub(lookfrom, lookat));
    let u = vunit(vcross(vup, w));
    let v = vcross(w, u);
    let horizontal = vscale(smul(focus_dist, viewport_width), u);
    let vertical = vscale(smul(focus_dist, viewport_height), v);
    let lower_left_corner = vsub(
        vsub(vsub(lookfrom, vdiv(horizontal, 2 * ONE)), vdiv(vertical, 2 * ONE)),
        vscale(focus_dist, w),
    );
    Camera {
        origin: lookfrom,
        lower_left_corner,
        horizontal,
        vertical,
        u,
        v,
        w,
        lens_radius: sdiv(aperture, 2 * ONE) as i64,
    }
}

/// The ray through image coordinates `(s, t)` from the lens point `rd` of the
/// unit disk.
pub open spec fn camera_ray(c: Camera, s: int, t: int, rd: Vec3) -> Ray {
    let rds = vscale(c.lens_radius as int, rd);
    let offset = vadd(vscale(rds.x as int, c.u), vscale(rds.y as int, c.v));
    Ray {
        origin: vadd(c.origin, offset),
        direction: vsub(
            vsub(vadd(vadd(c.lower_left_corner, vscale(s, c.horizontal)), vscale(t, c.vertical)), c.origin),
            offset,
        ),
    }
}

/// A point strictly inside the unit disk of the plane `z = 0`.
pub open spec fn in_unit_disk(p: Vec3) -> bool {
    p.wf() && p.z == 0 && vdot(p, p) < ONE
}

impl Camera {
    pub open spec fn wf(&self) -> bool {
        &&& self.origin.wf()
        &&& self.lower_left_corner.wf()
        &&& self.horizontal.wf()
        &&& self.vertical.wf()
        &&& self.u.wf()
        &&& self.v.wf()
        &&& self.w.wf()
        &&& in_range(self.lens_radius as int)
    }

    pub fn new(
        lookfrom: Vec3,
        lookat: Vec3,
        vup: Vec3,
        half_tan: i64,
        aspect_ratio: i64,
        aperture: i64,
        focus_dist: i64,
    ) -> (r: Camera)
        requires
            lookfrom.wf(),
            lookat.wf(),
            vup.wf(),
            in_range(half_tan as int),
            in_range(aspect_ratio as int),
            in_range(aperture as int),
            in_range(focus_dist as int),
        ensures
            r == camera_s(
                lookfrom,
                lookat,
                vup,
                half_tan as int,
                aspect_ratio as int,
                aperture as int,
                focus_dist as int,
            ),
            r.wf(),
    {
        let viewport_height = fx_mul(2 * ONE, half_tan);
        let viewport_width = fx_mul(aspect_ratio, viewport_height);
        let w = lookfrom.sub(&lookat).unit();
        let u = vup.cross(&w).unit();
        let v = w.cross(&u);
        let horizontal = u.scale(fx_mul(focus_dist, viewport_width));
        let vertical = v.scale(fx_mul(focus_dist, viewport_height));
        let lower_left_corner = lookfrom.sub(&horizontal.div_scalar(2 * ONE)).sub(
            &vertical.div_scalar(2 * ONE),
        ).sub(&w.scale(focus_dist));
        let lens_radius = fx_div(aperture, 2 * ONE);
        Camera { origin: lookfrom, lower_left_corner, horizontal, vertical, u, v, w, lens_radius }
    }

    /// The ray through `(s, t)` from the lens point `rd`.
    pub fn get_ray_through(&self, s: i64, t: i64, rd: Vec3) -> (r: Ray)
        requires
            self.wf(),
            in_range(s as int),
            in_range(t as int),
            rd.wf(),
        ensures
            r == camera_ray(*self, s as int, t as int, rd),
            r.wf(),
    {
        let rds = rd.scale(self.lens_radius);
        let offset = self.u.scale(rds.x).add(&self.v.scale(rds.y));
        let target = self.lower_left_corner.add(&self.horizontal.scale(s)).add(&self.vertical.scale(t));
        Ray::new(self.origin.add(&offset), target.sub(&self.origin).sub(&offset))
    }

    /// The ray through `(s, t)` from a random point of the lens.
    pub fn get_ray(&self, s: i64, t: i64) -> (r: Ray)
        requires
            self.wf(),
            in_range(s as int),
            in_range(t as int),
        ensures
            exists|rd: Vec3| in_unit_disk(rd) && r == #[trigger] camera_ray(*self, s as int, t as int, rd),
            r.wf(),
    {
        let rd = get_random_in_unit_disk();
        self.get_ray_through(s, t, rd)
    }
}

} // verus!
