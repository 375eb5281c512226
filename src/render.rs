//! The radiance recursion, the sky background, per-pixel sampling and the
//! gamma-corrected 8-bit quantization of the result.
use vstd::prelude::*;
use crate::camera::{Camera, camera_ray, in_unit_disk};
use crate::fixed::{in_range, tdiv, sadd, ssub, smul, sdiv, ssqrt, fx_add, fx_sub, fx_mul, fx_div, fx_sqrt, clamp, ONE, LIM};
use crate::hittablelist::{HittableList, closest_scan, misses_all};
use crate::material::{Material, draw_ok, scatter_s, white};
use crate::random::random_double;
use crate::ray::Ray;
use crate::sphere::Sphere;
use crate::vec3::{Vec3, vadd, vmul, vscale, vunit};

verus! {

/// The near end of the window in which scattered rays look for hits; it keeps a
/// ray that leaves a surface from hitting that surface again at once.
pub const T_MIN: i64 = 66;

/// The far end of that window: the largest fixed-point value.
pub const T_MAX: i64 = LIM;

/// The largest gamma-corrected level that is quantized, just under one.
pub const MAX_LEVEL: i64 = 65470;

/// The largest image side that the pixel loops accept.
pub const MAX_SIDE: i64 = 0x10_0000;

/// An 8-bit color.
#[derive(Clone, Copy, Debug, PartialEq, Eq, Structural)]
pub struct Pixel {
    pub r: i32,
    pub g: i32,
    pub b: i32,
}

pub open spec fn black() -> Vec3 {
    Vec3 { x: 0, y: 0, z: 0 }
}

/// The color of the sky overhead.
pub open spec fn sky_blue() -> Vec3 {
    Vec3 { x: 32768, y: 45875, z: ONE }
}

/// `x` clamped into `[0, ONE]`.
pub open spec fn clamp_unit(x: int) -> int {
    if x < 0 {
        0
    } else if x > ONE {
        ONE as int
    } else {
        x
    }
}

/// The sky gradient seen along `dir`: white below, blue overhead, blended by
/// the height of the unit direction.
pub open spec fn background_s(dir: Vec3) -> Vec3 {
    let t = clamp_unit(smul(ONE / 2, sadd(vunit(dir).y as int, ONE as int)));
    vadd(vscale(ssub(ONE as int, t), white()), vscale(t, sky_blue()))
}

/// Every draw of `draws` is a valid scattering draw.
pub open spec fn draws_ok(draws: Seq<(Vec3, int)>) -> bool {
    forall|k: int| 0 <= k < draws.len() ==> #[trigger] draw_ok(draws[k].0, draws[k].1)
}

/// The radiance along `ray` with `depth` bounces left, when the scattering
/// events use `draws` in order: black once the budget is spent, the sky on a
/// miss, black when the closest hit absorbs, else the attenuation times the
/// radiance of the scattered ray.
pub open spec fn radiance(objs: Seq<Sphere>, ray: Ray, depth: int, draws: Seq<(Vec3, int)>) -> Vec3
    decreases depth,
{
    if depth <= 0 {
        black()
    } else {
        match closest_scan(objs, ray, T_MIN as int, T_MAX as int, objs.len() as int) {
            None => background_s(ray.direction),
            Some(h) => match scatter_s(h.material, ray, h, draws[0].0, draws[0].1) {
                None => black(),
                Some((scattered, attenuation)) => vmul(
                    attenuation,
                    radiance(objs, scattered, depth - 1, draws.drop_first()),
                ),
            },
        }
    }
}

/// One channel, quantized: the mean of `sum` over `samples`, its square root,
/// clamped to `[0, MAX_LEVEL]`, then scaled by 256.
pub open spec fn quantize_s(sum: int, samples: int) -> int {
    let g = ssqrt(tdiv(sum, samples));
    let c = if g < 0 {
        0
    } else if g > MAX_LEVEL {
        MAX_LEVEL as int
    } else {
        g
    };
    (256 * c) / (ONE as int)
}

/// The image-plane coordinate of pixel `i` of `n`, offset by `jitter`.
pub open spec fn pixel_coord_s(i: int, jitter: int, n: int) -> int {
    sdiv(i * ONE + jitter, (n - 1) * ONE)
}

/// The sky gradient along `dir`.
pub fn background(dir: &Vec3) -> (r: Vec3)
    requires
        dir.wf(),
    ensures
        r == background_s(*dir),
        r.wf(),
{
    let unit = dir.unit();
    let t = clamp(fx_mul(ONE / 2, fx_add(unit.y, ONE)), 0, ONE);
    let w = Vec3 { x: ONE, y: ONE, z: ONE };
    let sky = Vec3 { x: 32768, y: 45875, z: ONE };
    w.scale(fx_sub(ONE, t)).add(&sky.scale(t))
}

/// The radiance arriving along `ray`, following at most `depth` bounces.
pub fn ray_color_world(ray: &Ray, world: &HittableList, depth: i32) -> (r: Vec3)
    requires
        ray.wf(),
        world.wf(),
    ensures
        depth <= 0 ==> r == black(),
        depth > 0 && misses_all(world.objects@, *ray, T_MIN as int, T_MAX as int) ==> r == background_s(ray.direction),
        depth == 1 && !misses_all(world.objects@, *ray, T_MIN as int, T_MAX as int) ==> r == black(),
        exists|draws: Seq<(Vec3, int)>| draws_ok(draws) && r == #[trigger] radiance(world.objects@, *ray, depth as int, draws),
        scene_bounded(world.objects@) ==> color_in_unit(r),
        r.wf(),
    decreases depth,
{
    if depth <= 0 {
        let r = Vec3 { x: 0, y: 0, z: 0 };
        assert(r == radiance(world.objects@, *ray, depth as int, Seq::<(Vec3, int)>::empty()));
        return r;
    }
    match world.hit(ray, T_MIN, T_MAX) {
        Some(rec) => {
            let sc = rec.material.scatter(ray, &rec);
            let ghost (p, u) = choose|p: Vec3, u: int| draw_ok(p, u) && sc == #[trigger] scatter_s(rec.material, *ray, rec, p, u);
            match sc {
                Some((scattered, attenuation)) => {
                    let bounce = ray_color_world(&scattered, world, depth - 1);
                    let ghost rest = choose|d: Seq<(Vec3, int)>| draws_ok(d) && bounce == #[trigger] radiance(world.objects@, scattered, depth - 1, d);
                    let r = attenuation.mul_element_wise(&bounce);
                    proof {
                        let draws = seq![(p, u)] + rest;
                        assert(draws[0] == (p, u));
                        assert(draws.drop_first() =~= rest);
                        assert forall|k: int| 0 <= k < draws.len() implies #[trigger] draw_ok(draws[k].0, draws[k].1) by {
                            if k > 0 {
                                assert(draws[k] == rest[k - 1]);
                            }
                        }
                        assert(r == radiance(world.objects@, *ray, depth as int, draws));
                        if scene_bounded(world.objects@) {
                            lemma_radiance_in_unit(world.objects@, *ray, depth as int, draws);
                        }
                    }
                    r
                },
                None => {
                    let r = Vec3 { x: 0, y: 0, z: 0 };
                    proof {
                        let draws = seq![(p, u)];
                        assert(draws[0] == (p, u));
                        assert(draws_ok(draws));
                        assert(r == radiance(world.objects@, *ray, depth as int, draws));
                    }
                    r
                },
            }
        },
        None => {
            let r = background(&ray.direction);
            assert(r == radiance(world.objects@, *ray, depth as int, Seq::<(Vec3, int)>::empty()));
            proof {
                lemma_background_unit(ray.direction);
            }
            r
        },
    }
}

/// `sum / samples`, rounded toward zero.
fn mean_of(sum: i64, samples: i64) -> (r: i64)
    requires
        in_range(sum as int),
        samples >= 1,
    ensures
        r == tdiv(sum as int, samples as int),
        in_range(r as int),
{
    proof {
        vstd::arithmetic::div_mod::lemma_div_is_ordered_by_denominator(if sum >= 0 { sum as int } else { -sum }, 1, samples as int);
    }
    if sum >= 0 {
        sum / samples
    } else {
        -((-sum) / samples)
    }
}

/// Quantizes one channel of a sum of `samples` radiance samples to `0..=255`.
pub fn quantize(sum: i64, samples: i64) -> (r: i32)
    requires
        in_range(sum as int),
        samples >= 1,
    ensures
        r == quantize_s(sum as int, samples as int),
        0 <= r <= 255,
{
    let g = fx_sqrt(mean_of(sum, samples));
    let c = clamp(g, 0, MAX_LEVEL);
    let q = 256 * c / ONE;
    q as i32
}

/// Appends the gamma-corrected 8-bit color of a sum of `samples_per_pixel`
/// radiance samples.
pub fn write_color(col: Vec3, samples_per_pixel: i64, out_buffer: &mut Vec<Pixel>)
    requires
        col.wf(),
        samples_per_pixel >= 1,
    ensures
        final(out_buffer)@ == old(out_buffer)@.push(quantize_pixel(col, samples_per_pixel as int)),
        pixel_in_range(quantize_pixel(col, samples_per_pixel as int)),
{
    let p = Pixel {
        r: quantize(col.x, samples_per_pixel),
        g: quantize(col.y, samples_per_pixel),
        b: quantize(col.z, samples_per_pixel),
    };
    out_buffer.push(p);
}

/// The image-plane coordinate of pixel `i` of `n`, offset by `jitter`.
pub fn pixel_coord(i: i64, jitter: i64, n: i64) -> (r: i64)
    requires
        0 <= i < n <= MAX_SIDE,
        0 <= jitter < ONE,
    ensures
        r == pixel_coord_s(i as int, jitter as int, n as int),
        in_range(r as int),
{
    fx_div(i * ONE + jitter, (n - 1) * ONE)
}

/// The draws behind one sample of a pixel: the jitter `du`, `dv` of the
/// image-plane coordinate, the lens point, and the scattering draws.
pub open spec fn sample_ok(s: (int, int, Vec3, Seq<(Vec3, int)>)) -> bool {
    0 <= s.0 < ONE && 0 <= s.1 < ONE && in_unit_disk(s.2) && draws_ok(s.3)
}

pub open spec fn samples_ok(ss: Seq<(int, int, Vec3, Seq<(Vec3, int)>)>) -> bool {
    forall|k: int| 0 <= k < ss.len() ==> #[trigger] sample_ok(ss[k])
}

/// The radiance of one sample through pixel `(i, j)` of a `w` by `h` image.
pub open spec fn sample_radiance(
    cam: Camera,
    objs: Seq<Sphere>,
    i: int,
    j: int,
    w: int,
    h: int,
    depth: int,
    s: (int, int, Vec3, Seq<(Vec3, int)>),
) -> Vec3 {
    radiance(objs, camera_ray(cam, pixel_coord_s(i, s.0, w), pixel_coord_s(j, s.1, h), s.2), depth, s.3)
}

/// The saturating sum of the radiance of the samples `ss`, in order.
pub open spec fn pixel_sum_s(
    cam: Camera,
    objs: Seq<Sphere>,
    i: int,
    j: int,
    w: int,
    h: int,
    depth: int,
    ss: Seq<(int, int, Vec3, Seq<(Vec3, int)>)>,
) -> Vec3
    decreases ss.len(),
{
    if ss.len() == 0 {
        black()
    } else {
        vadd(pixel_sum_s(cam, objs, i, j, w, h, depth, ss.drop_last()), sample_radiance(cam, objs, i, j, w, h, depth, ss.last()))
    }
}

/// Each channel of `v` divided by the sample count `n`.
pub open spec fn vmean(v: Vec3, n: int) -> Vec3 {
    Vec3 { x: tdiv(v.x as int, n) as i64, y: tdiv(v.y as int, n) as i64, z: tdiv(v.z as int, n) as i64 }
}

/// The 8-bit color of a sum of `n` samples.
pub open spec fn quantize_pixel(col: Vec3, n: int) -> Pixel {
    Pixel {
        r: quantize_s(col.x as int, n) as i32,
        g: quantize_s(col.y as int, n) as i32,
        b: quantize_s(col.z as int, n) as i32,
    }
}

pub open spec fn pixel_in_range(p: Pixel) -> bool {
    0 <= p.r <= 255 && 0 <= p.g <= 255 && 0 <= p.b <= 255
}

/// Where pixel `(i, j)` stands in an image written top row first.
pub open spec fn pixel_index(w: int, h: int, i: int, j: int) -> int {
    (h - 1 - j) * w + i
}

/// `p` is the quantized sum of `spp` samples through pixel `(i, j)`.
pub open spec fn pixel_ok(
    cam: Camera,
    objs: Seq<Sphere>,
    i: int,
    j: int,
    w: int,
    h: int,
    spp: int,
    depth: int,
    p: Pixel,
) -> bool {
    exists|ss: Seq<(int, int, Vec3, Seq<(Vec3, int)>)>|
        ss.len() == spp && samples_ok(ss) && p == #[trigger] quantize_pixel(pixel_sum_s(cam, objs, i, j, w, h, depth, ss), spp)
}

/// The sum of `samples` radiance samples through pixel `(i, j)`.
fn pixel_color_sum(
    cam: &Camera,
    world: &HittableList,
    i: i64,
    j: i64,
    image_width: i64,
    image_height: i64,
    samples: i64,
    max_depth: i32,
) -> (r: Vec3)
    requires
        cam.wf(),
        world.wf(),
        0 <= i < image_width <= MAX_SIDE,
        0 <= j < image_height <= MAX_SIDE,
    ensures
        exists|ss: Seq<(int, int, Vec3, Seq<(Vec3, int)>)>|
            ss.len() == (if samples > 0 { samples as int } else { 0 }) && samples_ok(ss)
                && r == #[trigger] pixel_sum_s(*cam, world.objects@, i as int, j as int, image_width as int, image_height as int, max_depth as int, ss),
        max_depth <= 0 || samples <= 0 ==> r == black(),
        r.wf(),
{
    let mut pixel_color = Vec3 { x: 0, y: 0, z: 0 };
    let mut k: i64 = 0;
    let ghost mut ss: Seq<(int, int, Vec3, Seq<(Vec3, int)>)> = Seq::empty();
    while k < samples
        invariant
            cam.wf(),
            world.wf(),
            0 <= i < image_width <= MAX_SIDE,
            0 <= j < image_height <= MAX_SIDE,
            pixel_color.wf(),
            0 <= k,
            samples <= 0 ==> k == 0,
            k > 0 ==> k <= samples,
            ss.len() == k,
            samples_ok(ss),
            pixel_color == pixel_sum_s(*cam, world.objects@, i as int, j as int, image_width as int, image_height as int, max_depth as int, ss),
            k == 0 ==> pixel_color == black(),
            max_depth <= 0 ==> pixel_color == black(),
        decreases samples - k,
    {
        let du = random_double();
        let dv = random_double();
        let u = pixel_coord(i, du, image_width);
        let v = pixel_coord(j, dv, image_height);
        let r = cam.get_ray(u, v);
        let ghost rd = choose|rd: Vec3| in_unit_disk(rd) && r == #[trigger] camera_ray(*cam, u as int, v as int, rd);
        let c = ray_color_world(&r, world, max_depth);
        let ghost d = choose|d: Seq<(Vec3, int)>| draws_ok(d) && c == #[trigger] radiance(world.objects@, r, max_depth as int, d);
        proof {
            let smp = (du as int, dv as int, rd, d);
            let ss2 = ss.push(smp);
            assert(ss2.drop_last() =~= ss);
            assert(ss2.last() == smp);
            assert(sample_ok(smp));
            assert forall|q: int| 0 <= q < ss2.len() implies #[trigger] sample_ok(ss2[q]) by {
                if q < ss.len() {
                    assert(ss2[q] == ss[q]);
                }
            }
            ss = ss2;
        }
        pixel_color = pixel_color.add(&c);
        k = k + 1;
    }
    pixel_color
}

/// The mean radiance through pixel `(i, j)` over `samples` jittered rays.
pub fn render_pixel(
    cam: &Camera,
    world: &HittableList,
    i: i64,
    j: i64,
    image_width: i64,
    image_height: i64,
    samples: i64,
    max_depth: i32,
) -> (r: Vec3)
    requires
        cam.wf(),
        world.wf(),
        0 <= i < image_width <= MAX_SIDE,
        0 <= j < image_height <= MAX_SIDE,
        samples >= 1,
    ensures
        exists|ss: Seq<(int, int, Vec3, Seq<(Vec3, int)>)>|
            ss.len() == samples && samples_ok(ss)
                && r == #[trigger] vmean(
                pixel_sum_s(*cam, world.objects@, i as int, j as int, image_width as int, image_height as int, max_depth as int, ss),
                samples as int,
            ),
        max_depth <= 0 ==> r == black(),
        r.wf(),
{
    let sum = pixel_color_sum(cam, world, i, j, image_width, image_height, samples, max_depth);
    let r = Vec3 { x: mean_of(sum.x, samples), y: mean_of(sum.y, samples), z: mean_of(sum.z, samples) };
    proof {
        if max_depth <= 0 {
            assert(0int / (samples as int) == 0);
        }
        assert(r == vmean(sum, samples as int));
    }
    r
}

/// Pixels of rows after row `j` stand before the start of row `j`.
proof fn lemma_index_before(w: int, h: int, ii: int, jj: int, j: int)
    requires
        0 <= ii < w,
        0 <= j < jj < h,
    ensures
        0 <= pixel_index(w, h, ii, jj) < pixel_index(w, h, 0, j),
{
    assert(0 <= (h - 1 - jj) * w) by (nonlinear_arith) requires jj < h, w > 0;
    assert((h - 1 - jj) * w + w <= (h - 1 - j) * w) by (nonlinear_arith) requires j < jj, w > 0;
}

/// Renders the image row by row, top row first, into 8-bit pixels: each pixel
/// is the quantized sum of `samples_per_pixel` samples through it.
pub fn shoot_rays(
    image_width: i64,
    image_height: i64,
    world: &HittableList,
    cam: &Camera,
    samples_per_pixel: i64,
    max_depth: i32,
) -> (r: Vec<Pixel>)
    requires
        cam.wf(),
        world.wf(),
        0 <= image_width <= MAX_SIDE,
        0 <= image_height <= MAX_SIDE,
        samples_per_pixel >= 1,
    ensures
        r@.len() == image_width * image_height,
        forall|ii: int, jj: int| 0 <= ii < image_width && 0 <= jj < image_height ==> pixel_ok(
            *cam, world.objects@, ii, jj, image_width as int, image_height as int,
            samples_per_pixel as int, max_depth as int,
            #[trigger] r@[pixel_index(image_width as int, image_height as int, ii, jj)],
        ),
        forall|k: int| 0 <= k < r@.len() ==> pixel_in_range(#[trigger] r@[k]),
        max_depth <= 0 ==> forall|k: int| 0 <= k < r@.len() ==> #[trigger] r@[k] == (Pixel { r: 0, g: 0, b: 0 }),
{
    let ghost w = image_width as int;
    let ghost h = image_height as int;
    let mut color_vec: Vec<Pixel> = Vec::new();
    let mut j: i64 = image_height;
    while j > 0
        invariant
            cam.wf(),
            world.wf(),
            w == image_width,
            h == image_height,
            0 <= image_width <= MAX_SIDE,
            0 <= j <= image_height <= MAX_SIDE,
            samples_per_pixel >= 1,
            color_vec@.len() == (image_height - j) * image_width,
            forall|ii: int, jj: int| 0 <= ii < w && j <= jj < h ==> pixel_ok(
                *cam, world.objects@, ii, jj, w, h, samples_per_pixel as int, max_depth as int,
                #[trigger] color_vec@[pixel_index(w, h, ii, jj)],
            ),
            forall|k: int| 0 <= k < color_vec@.len() ==> pixel_in_range(#[trigger] color_vec@[k]),
            max_depth <= 0 ==> forall|k: int| 0 <= k < color_vec@.len() ==> #[trigger] color_vec@[k] == (Pixel { r: 0, g: 0, b: 0 }),
        decreases j,
    {
        j = j - 1;
        let mut i: i64 = 0;
        assert((image_height - (j + 1)) * image_width == (h - 1 - j) * w);
        while i < image_width
            invariant
                cam.wf(),
                world.wf(),
                w == image_width,
                h == image_height,
                0 <= image_width <= MAX_SIDE,
                0 <= j < image_height <= MAX_SIDE,
                0 <= i <= image_width,
                samples_per_pixel >= 1,
                color_vec@.len() == (h - 1 - j) * w + i,
                forall|ii: int, jj: int| 0 <= ii < w && j < jj < h ==> pixel_ok(
                    *cam, world.objects@, ii, jj, w, h, samples_per_pixel as int, max_depth as int,
                    #[trigger] color_vec@[pixel_index(w, h, ii, jj)],
                ),
                forall|ii: int| 0 <= ii < i ==> pixel_ok(
                    *cam, world.objects@, ii, j as int, w, h, samples_per_pixel as int, max_depth as int,
                    #[trigger] color_vec@[pixel_index(w, h, ii, j as int)],
                ),
                forall|k: int| 0 <= k < color_vec@.len() ==> pixel_in_range(#[trigger] color_vec@[k]),
                max_depth <= 0 ==> forall|k: int| 0 <= k < color_vec@.len() ==> #[trigger] color_vec@[k] == (Pixel { r: 0, g: 0, b: 0 }),
            decreases image_width - i,
        {
            let pixel_color = pixel_color_sum(cam, world, i, j, image_width, image_height, samples_per_pixel, max_depth);
            proof {
                if max_depth <= 0 {
                    lemma_quantize_zero(samples_per_pixel as int);
                }
            }
            let ghost old_vec = color_vec@;
            write_color(pixel_color, samples_per_pixel, &mut color_vec);
            proof {
                let ss = choose|ss: Seq<(int, int, Vec3, Seq<(Vec3, int)>)>|
                    ss.len() == samples_per_pixel as int && samples_ok(ss)
                        && pixel_color == #[trigger] pixel_sum_s(*cam, world.objects@, i as int, j as int, w, h, max_depth as int, ss);
                assert(pixel_index(w, h, i as int, j as int) == old_vec.len());
                assert(color_vec@[pixel_index(w, h, i as int, j as int)] == quantize_pixel(pixel_sum_s(*cam, world.objects@, i as int, j as int, w, h, max_depth as int, ss), samples_per_pixel as int));
                assert forall|ii: int, jj: int| 0 <= ii < w && j < jj < h implies pixel_ok(
                    *cam, world.objects@, ii, jj, w, h, samples_per_pixel as int, max_depth as int,
                    #[trigger] color_vec@[pixel_index(w, h, ii, jj)],
                ) by {
                    lemma_index_before(w, h, ii, jj, j as int);
                    assert(color_vec@[pixel_index(w, h, ii, jj)] == old_vec[pixel_index(w, h, ii, jj)]);
                }
                assert forall|ii: int| 0 <= ii < i + 1 implies pixel_ok(
                    *cam, world.objects@, ii, j as int, w, h, samples_per_pixel as int, max_depth as int,
                    #[trigger] color_vec@[pixel_index(w, h, ii, j as int)],
                ) by {
                    if ii < i {
                        assert(color_vec@[pixel_index(w, h, ii, j as int)] == old_vec[pixel_index(w, h, ii, j as int)]);
                    }
                }
                assert forall|k: int| 0 <= k < color_vec@.len() implies pixel_in_range(#[trigger] color_vec@[k]) by {
                    if k < old_vec.len() {
                        assert(color_vec@[k] == old_vec[k]);
                    }
                }
            }
            i = i + 1;
        }
        assert((h - 1 - j) * w + w == (image_height - j) * image_width) by (nonlinear_arith)
            requires w == image_width, h == image_height;
    }
    assert((image_height - 0) * image_width == image_width * image_height) by (nonlinear_arith);
    color_vec
}

/// Every channel of `c` lies in `[0, 1]`.
pub open spec fn color_in_unit(c: Vec3) -> bool {
    0 <= c.x <= ONE && 0 <= c.y <= ONE && 0 <= c.z <= ONE
}

/// The material's attenuation lies in `[0, 1]` per channel.
pub open spec fn material_bounded(m: Material) -> bool {
    match m {
        Material::Lambertian(l) => color_in_unit(l.albedo),
        Material::Metal(mt) => color_in_unit(mt.albedo),
        Material::Dielectric(_) => true,
    }
}

pub open spec fn scene_bounded(objs: Seq<Sphere>) -> bool {
    forall|k: int| 0 <= k < objs.len() ==> material_bounded(#[trigger] objs[k].material)
}

proof fn lemma_scan_bounded(objs: Seq<Sphere>, r: Ray, t_min: int, t_max: int, n: int)
    requires
        scene_bounded(objs),
        n <= objs.len(),
    ensures
        closest_scan(objs, r, t_min, t_max, n) matches Some(h) ==> material_bounded(h.material),
    decreases n,
{
    if n > 0 {
        lemma_scan_bounded(objs, r, t_min, t_max, n - 1);
        assert(material_bounded(objs[n - 1].material));
    }
}

proof fn lemma_smul_unit(a: int, c: int)
    requires
        0 <= a <= ONE,
        0 <= c <= ONE,
    ensures
        0 <= smul(a, c) <= a,
{
    assert(0 <= a * c <= a * ONE) by (nonlinear_arith) requires 0 <= a, 0 <= c <= ONE;
}

proof fn lemma_vmul_unit(a: Vec3, c: Vec3)
    requires
        color_in_unit(a),
        color_in_unit(c),
    ensures
        color_in_unit(vmul(a, c)),
        vmul(a, c).x <= a.x && vmul(a, c).y <= a.y && vmul(a, c).z <= a.z,
{
    lemma_smul_unit(a.x as int, c.x as int);
    lemma_smul_unit(a.y as int, c.y as int);
    lemma_smul_unit(a.z as int, c.z as int);
}

proof fn lemma_background_unit(dir: Vec3)
    ensures
        color_in_unit(background_s(dir)),
{
    let t = clamp_unit(smul(ONE / 2, sadd(vunit(dir).y as int, ONE as int)));
    lemma_smul_unit(ONE - t, ONE as int);
    lemma_smul_unit(t, 32768);
    lemma_smul_unit(t, 45875);
    lemma_smul_unit(t, ONE as int);
    assert(smul(ONE - t, ONE as int) == ONE - t);
    assert(smul(t, ONE as int) == t);
}

/// The radiance stays within `[0, 1]` per channel whenever every material's
/// attenuation does, whatever the draws.
pub proof fn lemma_radiance_in_unit(objs: Seq<Sphere>, ray: Ray, depth: int, draws: Seq<(Vec3, int)>)
    requires
        scene_bounded(objs),
    ensures
        color_in_unit(radiance(objs, ray, depth, draws)),
    decreases depth,
{
    if depth > 0 {
        lemma_scan_bounded(objs, ray, T_MIN as int, T_MAX as int, objs.len() as int);
        match closest_scan(objs, ray, T_MIN as int, T_MAX as int, objs.len() as int) {
            None => lemma_background_unit(ray.direction),
            Some(h) => {
                if let Some((scattered, attenuation)) = scatter_s(h.material, ray, h, draws[0].0, draws[0].1) {
                    lemma_radiance_in_unit(objs, scattered, depth - 1, draws.drop_first());
                    lemma_vmul_unit(attenuation, radiance(objs, scattered, depth - 1, draws.drop_first()));
                }
            },
        }
    }
}

/// When the closest hit is diffuse, the radiance is at most the albedo in each
/// channel, whatever the draws.
pub proof fn lemma_diffuse_hit_dims(objs: Seq<Sphere>, ray: Ray, depth: int, draws: Seq<(Vec3, int)>)
    requires
        scene_bounded(objs),
        depth > 0,
        closest_scan(objs, ray, T_MIN as int, T_MAX as int, objs.len() as int) matches Some(h) && h.material is Lambertian,
    ensures
        ({
            let l = closest_scan(objs, ray, T_MIN as int, T_MAX as int, objs.len() as int)->0.material->Lambertian_0;
            let c = radiance(objs, ray, depth, draws);
            c.x <= l.albedo.x && c.y <= l.albedo.y && c.z <= l.albedo.z
        }),
{
    let h = closest_scan(objs, ray, T_MIN as int, T_MAX as int, objs.len() as int)->0;
    lemma_scan_bounded(objs, ray, T_MIN as int, T_MAX as int, objs.len() as int);
    if let Some((scattered, attenuation)) = scatter_s(h.material, ray, h, draws[0].0, draws[0].1) {
        lemma_radiance_in_unit(objs, scattered, depth - 1, draws.drop_first());
        lemma_vmul_unit(attenuation, radiance(objs, scattered, depth - 1, draws.drop_first()));
    }
}

/// A black channel quantizes to zero.
proof fn lemma_quantize_zero(samples: int)
    requires
        samples >= 1,
    ensures
        quantize_s(0, samples) == 0,
{
    assert(0int / samples == 0);
}

} // verus!
