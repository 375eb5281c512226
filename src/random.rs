//! Random samples: uniform fixed-point values, and points in the unit sphere
//! and unit disk by rejection.
use rand::Rng;
use vstd::prelude::*;
use crate::fixed::{in_range, ONE};
use crate::vec3::{Vec3, vdot, vunit};

verus! {

/// How many candidates a rejection sampler draws before it gives up and
/// returns the origin.
pub const MAX_TRIES: u32 = 64;

/// Relies on rand's `Rng::gen_range` over `i64`: a value in `[min, max)`; it
/// panics only on an empty range.
#[verifier::external_body]
fn gen_range_i64(min: i64, max: i64) -> (r: i64)
    requires
        min < max,
    ensures
        min <= r < max,
{
    rand::thread_rng().gen_range(min..max)
}

/// A uniform value in `[min, max)`.
pub fn random_double_range(min: i64, max: i64) -> (r: i64)
    requires
        min < max,
        in_range(min as int),
        in_range(max as int),
    ensures
        min <= r < max,
        in_range(r as int),
{
    gen_range_i64(min, max)
}

/// A uniform value in `[0, 1)`.
pub fn random_double() -> (r: i64)
    ensures
        0 <= r < ONE,
{
    random_double_range(0, ONE)
}

/// A vector with each coordinate uniform in `[0, 1)`.
pub fn get_random_vec() -> (r: Vec3)
    ensures
        0 <= r.x < ONE,
        0 <= r.y < ONE,
        0 <= r.z < ONE,
        r.wf(),
{
    Vec3 { x: random_double(), y: random_double(), z: random_double() }
}

/// A vector with each coordinate uniform in `[min, max)`.
pub fn get_random_vec_range(min: i64, max: i64) -> (r: Vec3)
    requires
        min < max,
        in_range(min as int),
        in_range(max as int),
    ensures
        min <= r.x < max,
        min <= r.y < max,
        min <= r.z < max,
        r.wf(),
{
    Vec3 { x: random_double_range(min, max), y: random_double_range(min, max), z: random_double_range(min, max) }
}

/// A point strictly inside the unit sphere.
pub fn get_random_in_unit_sphere() -> (r: Vec3)
    ensures
        vdot(r, r) < ONE,
        -ONE <= r.x < ONE,
        -ONE <= r.y < ONE,
        -ONE <= r.z < ONE,
        r.wf(),
{
    let mut tries: u32 = 0;
    while tries < MAX_TRIES
        decreases MAX_TRIES - tries,
    {
        let p = get_random_vec_range(-ONE, ONE);
        if p.magnitude2() < ONE {
            return p;
        }
        tries = tries + 1;
    }
    let z = Vec3::zero();
    assert(vdot(z, z) == 0);
    z
}

/// A point strictly inside the unit disk of the plane `z = 0`.
pub fn get_random_in_unit_disk() -> (r: Vec3)
    ensures
        vdot(r, r) < ONE,
        r.z == 0,
        -ONE <= r.x < ONE,
        -ONE <= r.y < ONE,
        r.wf(),
{
    let mut tries: u32 = 0;
    while tries < MAX_TRIES
        decreases MAX_TRIES - tries,
    {
        let p = Vec3 { x: random_double_range(-ONE, ONE), y: random_double_range(-ONE, ONE), z: 0 };
        if p.magnitude2() < ONE {
            return p;
        }
        tries = tries + 1;
    }
    let z = Vec3::zero();
    assert(vdot(z, z) == 0);
    z
}

/// A direction of unit length: a point of the unit sphere, normalized.
pub fn random_unit_vector() -> (r: Vec3)
    ensures
        exists|p: Vec3| p.wf() && vdot(p, p) < ONE && r == #[trigger] vunit(p),
        r.wf(),
{
    let p = get_random_in_unit_sphere();
    p.unit()
}

} // verus!
