use raytracer::camera::Camera;
use raytracer::fixed::ONE;
use raytracer::hittablelist::{HitRecord, HittableList};
use raytracer::material::{Dielectric, Lambertian, Material, Metal};
use raytracer::random::{
    get_random_in_unit_disk, get_random_in_unit_sphere, get_random_vec, get_random_vec_range,
    random_double, random_double_range, random_unit_vector,
};
use raytracer::ray::Ray;
use raytracer::render::{
    background, pixel_coord, quantize, ray_color_world, render_pixel, shoot_rays, write_color,
    Pixel, T_MAX, T_MIN,
};
use raytracer::sphere::Sphere;
use raytracer::vec3::Vec3;

fn upward_hit(material: Material, front_face: bool) -> HitRecord {
    HitRecord { p: Vec3::zero(), normal: Vec3::new(0, ONE, 0), t: ONE, front_face, material }
}

fn gray() -> Material {
    Material::Lambertian(Lambertian { albedo: Vec3::new(ONE / 2, ONE / 2, ONE / 2) })
}

#[test]
fn lambertian_always_scatters() {
    let l = Lambertian { albedo: Vec3::new(ONE / 2, ONE / 4, ONE) };
    let down = Ray::new(Vec3::new(0, ONE, 0), Vec3::new(0, -ONE, 0));
    let rec = upward_hit(Material::Lambertian(l), true);
    let (s, a) = l.scatter(&down, &rec, Vec3::new(ONE, 0, 0)).unwrap();
    assert_eq!(s.origin, Vec3::zero());
    assert_eq!(s.direction, Vec3::new(ONE, ONE, 0));
    assert_eq!(a, l.albedo);
    // a sample that cancels the normal falls back to the normal itself
    let (s2, _) = l.scatter(&down, &rec, Vec3::new(0, -ONE, 0)).unwrap();
    assert_eq!(s2.direction, Vec3::new(0, ONE, 0));
    for _ in 0..20 {
        assert!(rec.material.scatter(&down, &rec).is_some());
    }
}

#[test]
fn metal_reflects_or_absorbs() {
    let m = Metal { albedo: Vec3::new(ONE, ONE / 2, 0), fuzz: 0 };
    let rec = upward_hit(Material::Metal(m), true);
    let down = Ray::new(Vec3::new(0, ONE, 0), Vec3::new(0, -ONE, 0));
    let (s, a) = m.scatter(&down, &rec, Vec3::new(ONE / 2, 0, 0)).unwrap();
    assert_eq!(s.direction, Vec3::new(0, ONE, 0));
    assert_eq!(a, m.albedo);
    let fuzzy = Metal { albedo: m.albedo, fuzz: ONE };
    assert!(fuzzy.scatter(&down, &rec, Vec3::new(0, -ONE, 0)).is_none());
    assert!(fuzzy.scatter(&down, &rec, Vec3::new(0, -2 * ONE, 0)).is_none());
    assert!(fuzzy.scatter(&down, &rec, Vec3::new(0, -ONE / 2, 0)).is_some());
    assert_eq!(Metal::reflect(Vec3::new(ONE, -ONE, 0), Vec3::new(0, ONE, 0)), Vec3::new(ONE, ONE, 0));
}

#[test]
fn dielectric_refracts_or_reflects() {
    let d = Dielectric { ir: 3 * ONE / 2 };
    let rec = upward_hit(Material::Dielectric(d), true);
    let down = Ray::new(Vec3::new(0, ONE, 0), Vec3::new(0, -ONE, 0));
    let (through, a) = d.scatter(&down, &rec, ONE - 1).unwrap();
    assert_eq!(through.direction, Vec3::new(0, -ONE, 0));
    assert_eq!(a, Vec3::new(ONE, ONE, ONE));
    let (back, a2) = d.scatter(&down, &rec, 0).unwrap();
    assert_eq!(back.direction, Vec3::new(0, ONE, 0));
    assert_eq!(a2, Vec3::new(ONE, ONE, ONE));
    for _ in 0..20 {
        let (_, a3) = rec.material.scatter(&down, &rec).unwrap();
        assert_eq!(a3, Vec3::new(ONE, ONE, ONE));
    }
}

#[test]
fn dielectric_total_internal_reflection() {
    let d = Dielectric { ir: 3 * ONE / 2 };
    // leaving the glass at a grazing angle: ratio 1.5, sin near 1
    let rec = upward_hit(Material::Dielectric(d), false);
    let r = Ray::new(Vec3::zero(), Vec3::new(ONE, -ONE / 8, 0));
    let (s, _) = d.scatter(&r, &rec, ONE - 1).unwrap();
    let unit = r.direction.unit();
    assert_eq!(s.direction, Metal::reflect(unit, rec.normal));
    assert!(s.direction.y > 0);
}

#[test]
fn reflectance_and_refraction_formulas() {
    assert_eq!(Dielectric::reflectance(ONE, ONE), 0);
    assert_eq!(Dielectric::reflectance(0, ONE), ONE);
    assert_eq!(Dielectric::reflectance(ONE, 3 * ONE), ONE / 4);
    assert_eq!(
        Dielectric::refract(Vec3::new(0, -ONE, 0), Vec3::new(0, ONE, 0), ONE / 2),
        Vec3::new(0, -ONE, 0)
    );
}

#[test]
fn color_at_depth_zero_is_black() {
    let mut world = HittableList::new();
    world.add(Sphere::new(Vec3::new(0, 0, -ONE), ONE / 2, gray()));
    let r = Ray::new(Vec3::zero(), Vec3::new(0, 0, -ONE));
    assert_eq!(ray_color_world(&r, &world, 0), Vec3::zero());
    let empty = HittableList::new();
    assert_eq!(ray_color_world(&r, &empty, 0), Vec3::zero());
    assert_eq!(ray_color_world(&r, &empty, -3), Vec3::zero());
}

#[test]
fn background_gradient() {
    let empty = HittableList::new();
    let up = Ray::new(Vec3::zero(), Vec3::new(0, ONE, 0));
    let down = Ray::new(Vec3::zero(), Vec3::new(0, -ONE, 0));
    assert_eq!(ray_color_world(&up, &empty, 5), Vec3::new(ONE / 2, 45875, ONE));
    assert_eq!(ray_color_world(&down, &empty, 5), Vec3::new(ONE, ONE, ONE));
    // normalized by length, so a long direction gives the same color
    assert_eq!(background(&Vec3::new(0, 7 * ONE, 0)), Vec3::new(ONE / 2, 45875, ONE));
    assert_eq!(background(&Vec3::new(0, 0, -ONE)), Vec3::new(3 * ONE / 4, 55705, ONE));
    // a very short direction rounds to a unit height above one; the blend stays at the sky
    assert_eq!(background(&Vec3::new(0, 300, 0)), Vec3::new(ONE / 2, 45875, ONE));
    assert_eq!(background(&Vec3::new(0, -300, 0)), Vec3::new(ONE, ONE, ONE));
}

#[test]
fn mirror_reflects_the_sky() {
    let mut world = HittableList::new();
    let m = Material::Metal(Metal { albedo: Vec3::new(ONE, ONE, ONE), fuzz: 0 });
    world.add(Sphere::new(Vec3::new(0, 0, -ONE), ONE / 2, m));
    let r = Ray::new(Vec3::zero(), Vec3::new(0, 0, -ONE));
    // the bounce comes straight back and escapes to the horizon
    assert_eq!(ray_color_world(&r, &world, 2), Vec3::new(3 * ONE / 4, 55705, ONE));
    // with one bounce of budget the continuation is already black
    assert_eq!(ray_color_world(&r, &world, 1), Vec3::zero());
}

fn centered_camera() -> Camera {
    Camera::new(Vec3::zero(), Vec3::new(0, 0, -ONE), Vec3::new(0, ONE, 0), ONE, 16 * ONE / 9, 0, ONE)
}

#[test]
fn camera_basis() {
    let cam = centered_camera();
    assert_eq!(cam.w, Vec3::new(0, 0, ONE));
    assert_eq!(cam.u, Vec3::new(ONE, 0, 0));
    assert_eq!(cam.v, Vec3::new(0, ONE, 0));
    assert_eq!(cam.vertical, Vec3::new(0, 2 * ONE, 0));
    assert_eq!(cam.lower_left_corner.y, -ONE);
    assert_eq!(cam.lower_left_corner.z, -ONE);
    assert_eq!(cam.lens_radius, 0);
    let lens = Camera::new(Vec3::zero(), Vec3::new(0, 0, -ONE), Vec3::new(0, ONE, 0), ONE, ONE, ONE, ONE);
    assert_eq!(lens.lens_radius, ONE / 2);
    let r = lens.get_ray_through(ONE / 2, ONE / 2, Vec3::new(ONE / 2, 0, 0));
    assert_eq!(r.origin, Vec3::new(ONE / 4, 0, 0));
    assert_eq!(r.direction, Vec3::new(-ONE / 4, 0, -ONE));
}

#[test]
fn end_to_end_center_pixel_sees_sphere() {
    let mut world = HittableList::new();
    world.add(Sphere::new(Vec3::new(0, 0, -ONE), ONE / 2, gray()));
    let cam = centered_camera();
    let r = cam.get_ray(ONE / 2, ONE / 2);
    assert_eq!(r.origin, Vec3::zero());
    assert_eq!(r.direction, Vec3::new(0, 0, -ONE));
    let h = world.hit(&r, T_MIN, T_MAX).unwrap();
    assert!(h.normal.z > 0);
    assert_eq!(h.normal, Vec3::new(0, 0, ONE));
    let c = ray_color_world(&r, &world, 50);
    assert_ne!(c, background(&r.direction));
    assert!(c.z <= ONE / 2);
}

#[test]
fn quantize_clamps_before_scaling() {
    assert_eq!(quantize(ONE, 1), 255);
    assert_eq!(quantize(0, 1), 0);
    assert_eq!(quantize(100 * ONE, 100), 255);
    assert_eq!(quantize(4 * ONE, 1), 255);
    assert_eq!(quantize(-ONE, 1), 0);
    assert_eq!(quantize(ONE / 4, 1), 128);
    let mut out = Vec::new();
    write_color(Vec3::new(ONE, 0, ONE / 4), 1, &mut out);
    assert_eq!(out, vec![Pixel { r: 255, g: 0, b: 128 }]);
}

#[test]
fn pixel_coordinates() {
    assert_eq!(pixel_coord(0, 0, 3), 0);
    assert_eq!(pixel_coord(2, 0, 3), ONE);
    assert_eq!(pixel_coord(1, 0, 3), ONE / 2);
}

#[test]
fn render_pixel_and_image() {
    let empty = HittableList::new();
    let cam = centered_camera();
    assert_eq!(render_pixel(&cam, &empty, 1, 1, 4, 3, 5, 0), Vec3::zero());
    let c = render_pixel(&cam, &empty, 1, 1, 4, 3, 5, 10);
    assert_eq!(c.z, ONE);
    let img = shoot_rays(4, 3, &empty, &cam, 2, 0);
    assert_eq!(img.len(), 12);
    assert!(img.iter().all(|p| *p == Pixel { r: 0, g: 0, b: 0 }));
    let sky = shoot_rays(4, 3, &empty, &cam, 2, 3);
    assert_eq!(sky.len(), 12);
    assert!(sky.iter().all(|p| p.b == 255));
}

#[test]
fn random_samples_stay_in_range() {
    for _ in 0..200 {
        let d = random_double();
        assert!((0..ONE).contains(&d));
        let e = random_double_range(-ONE, 2 * ONE);
        assert!((-ONE..2 * ONE).contains(&e));
        let p = get_random_in_unit_sphere();
        assert!(p.magnitude2() < ONE);
        let q = get_random_in_unit_disk();
        assert!(q.magnitude2() < ONE);
        assert_eq!(q.z, 0);
        let v = get_random_vec();
        assert!(v.x >= 0 && v.x < ONE && v.y >= 0 && v.y < ONE && v.z >= 0 && v.z < ONE);
        let w = get_random_vec_range(ONE / 2, ONE);
        assert!(w.x >= ONE / 2 && w.x < ONE && w.z >= ONE / 2 && w.z < ONE);
        let u = random_unit_vector();
        assert!(u.x.abs() <= 2 * ONE && u.y.abs() <= 2 * ONE && u.z.abs() <= 2 * ONE);
    }
}
