use raytracer::fixed::{clamp, fx_add, fx_div, fx_mul, fx_sqrt, fx_sub, ONE, LIM};
use raytracer::hittablelist::{HitRecord, Hittable, HittableList};
use raytracer::material::{Lambertian, Material, Metal};
use raytracer::ray::Ray;
use raytracer::render::{T_MAX, T_MIN};
use raytracer::sphere::Sphere;
use raytracer::vec3::Vec3;

fn gray() -> Material {
    Material::Lambertian(Lambertian { albedo: Vec3::new(ONE / 2, ONE / 2, ONE / 2) })
}

fn shiny() -> Material {
    Material::Metal(Metal { albedo: Vec3::new(ONE, ONE, ONE), fuzz: 0 })
}

#[test]
fn fixed_point_arithmetic() {
    assert_eq!(fx_mul(3 * ONE, ONE / 2), 3 * ONE / 2);
    assert_eq!(fx_mul(-3 * ONE, ONE / 2), -3 * ONE / 2);
    assert_eq!(fx_div(ONE, 4 * ONE), ONE / 4);
    assert_eq!(fx_div(ONE, 0), 0);
    assert_eq!(fx_sqrt(4 * ONE), 2 * ONE);
    assert_eq!(fx_sqrt(ONE / 4), ONE / 2);
    assert_eq!(fx_sqrt(-ONE), 0);
    assert_eq!(fx_add(LIM, LIM), LIM);
    assert_eq!(fx_sub(-LIM, LIM), -LIM);
    assert_eq!(clamp(5, 0, 3), 3);
    assert_eq!(clamp(-5, 0, 3), 0);
    assert_eq!(clamp(2, 0, 3), 2);
}

#[test]
fn vector_operations() {
    let x = Vec3::new(ONE, 0, 0);
    let y = Vec3::new(0, ONE, 0);
    assert_eq!(x.cross(&y), Vec3::new(0, 0, ONE));
    assert_eq!(x.dot(&y), 0);
    let v = Vec3::new(3 * ONE, 4 * ONE, 0);
    assert_eq!(v.magnitude2(), 25 * ONE);
    assert_eq!(v.magnitude(), 5 * ONE);
    assert_eq!(v.unit(), Vec3::new(39321, 52428, 0));
    assert_eq!(v.neg(), Vec3::new(-3 * ONE, -4 * ONE, 0));
    assert_eq!(v.scale(ONE / 2), Vec3::new(3 * ONE / 2, 2 * ONE, 0));
    assert_eq!(v.mul_element_wise(&Vec3::new(2 * ONE, ONE / 4, 7)), Vec3::new(6 * ONE, ONE, 0));
    assert_eq!(v.add(&x).sub(&y), Vec3::new(4 * ONE, 3 * ONE, 0));
    assert_eq!(Vec3::new(i64::MAX, i64::MIN, 0), Vec3::new(LIM, -LIM, 0));
    assert!(Vec3::zero().is_zero());
    assert!(!x.is_zero());
}

#[test]
fn ray_at_parameter() {
    let r = Ray::new(Vec3::new(ONE, 0, 0), Vec3::new(0, 2 * ONE, 0));
    assert_eq!(r.at(ONE / 2), Vec3::new(ONE, ONE, 0));
    assert_eq!(r.at(0), Vec3::new(ONE, 0, 0));
}

#[test]
fn ray_from_outside_hits_front_face() {
    let s = Sphere::new(Vec3::new(0, 0, -ONE), ONE / 2, gray());
    let r = Ray::new(Vec3::zero(), Vec3::new(0, 0, -ONE));
    let h = s.hit(&r, T_MIN, T_MAX).unwrap();
    assert!(h.front_face);
    assert_eq!(h.t, ONE / 2);
    assert_eq!(h.p, Vec3::new(0, 0, -ONE / 2));
    assert_eq!(h.normal, Vec3::new(0, 0, ONE));
    assert_eq!(h.material, gray());
}

#[test]
fn ray_from_inside_hits_back_face() {
    let s = Sphere::new(Vec3::new(0, 0, -ONE), ONE / 2, gray());
    let r = Ray::new(Vec3::new(0, 0, -ONE), Vec3::new(0, 0, -ONE));
    let h = s.hit(&r, T_MIN, T_MAX).unwrap();
    assert!(!h.front_face);
    assert_eq!(h.t, ONE / 2);
    assert_eq!(h.p, Vec3::new(0, 0, -3 * ONE / 2));
    assert_eq!(h.normal, Vec3::new(0, 0, ONE));
    assert!(h.normal.dot(&r.direction) <= 0);
}

#[test]
fn hit_window_is_open() {
    let s = Sphere::new(Vec3::new(0, 0, -ONE), ONE / 2, gray());
    let r = Ray::new(Vec3::zero(), Vec3::new(0, 0, -ONE));
    // the near root sits exactly on t_min, so the far one is taken
    let h = s.hit(&r, ONE / 2, T_MAX).unwrap();
    assert_eq!(h.t, 3 * ONE / 2);
    assert!(!h.front_face);
    // both roots at or past t_max
    assert!(s.hit(&r, T_MIN, ONE / 2).is_none());
    assert!(s.hit(&r, 2 * ONE, T_MAX).is_none());
}

#[test]
fn ray_pointing_away_misses() {
    let s = Sphere::new(Vec3::new(0, 0, -ONE), ONE / 2, gray());
    let r = Ray::new(Vec3::zero(), Vec3::new(0, ONE, 0));
    assert!(s.hit(&r, T_MIN, T_MAX).is_none());
    let back = Ray::new(Vec3::zero(), Vec3::new(0, 0, ONE));
    assert!(s.hit(&back, T_MIN, T_MAX).is_none());
}

#[test]
fn scene_returns_nearest_of_overlapping_spheres() {
    let mut world = HittableList::new();
    world.add(Sphere::new(Vec3::new(0, 0, -3 * ONE / 2), ONE / 2, shiny()));
    world.add(Sphere::new(Vec3::new(0, 0, -ONE), ONE / 2, gray()));
    let r = Ray::new(Vec3::zero(), Vec3::new(0, 0, -ONE));
    let h = world.hit(&r, T_MIN, T_MAX).unwrap();
    assert_eq!(h.t, ONE / 2);
    assert_eq!(h.material, gray());

    let mut reversed = HittableList::new();
    reversed.add(Sphere::new(Vec3::new(0, 0, -ONE), ONE / 2, gray()));
    reversed.add(Sphere::new(Vec3::new(0, 0, -3 * ONE / 2), ONE / 2, shiny()));
    let h2 = reversed.hit(&r, T_MIN, T_MAX).unwrap();
    assert_eq!(h2.t, ONE / 2);
    assert_eq!(h2.material, gray());
}

#[test]
fn empty_scene_hits_nothing() {
    let world = HittableList::new();
    let r = Ray::new(Vec3::zero(), Vec3::new(0, 0, -ONE));
    assert!(world.hit(&r, T_MIN, T_MAX).is_none());
}

#[test]
fn set_face_normal_orients_against_ray() {
    let mut rec = HitRecord {
        p: Vec3::zero(),
        normal: Vec3::zero(),
        t: ONE,
        front_face: false,
        material: gray(),
    };
    let r = Ray::new(Vec3::zero(), Vec3::new(0, -ONE, 0));
    rec.set_face_normal(&r, Vec3::new(0, ONE, 0));
    assert!(rec.front_face);
    assert_eq!(rec.normal, Vec3::new(0, ONE, 0));
    rec.set_face_normal(&r, Vec3::new(0, -ONE, 0));
    assert!(!rec.front_face);
    assert_eq!(rec.normal, Vec3::new(0, ONE, 0));
    assert_eq!(rec.t, ONE);
}

fn nearest_t<H: Hittable>(h: &H, r: &Ray) -> Option<i64> {
    Hittable::hit(h, r, T_MIN, T_MAX).map(|rec| rec.t)
}

#[test]
fn hittable_trait_dispatch() {
    let s = Sphere::new(Vec3::new(0, 0, -ONE), ONE / 2, gray());
    let r = Ray::new(Vec3::zero(), Vec3::new(0, 0, -ONE));
    assert_eq!(nearest_t(&s, &r), Some(ONE / 2));
    let mut world = HittableList::new();
    assert_eq!(nearest_t(&world, &r), None);
    world.add(s);
    assert_eq!(nearest_t(&world, &r), Some(ONE / 2));
}
