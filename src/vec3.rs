//! Three-component fixed-point vectors, used as points, directions and colors.
use vstd::prelude::*;
use crate::fixed::{in_range, sat, saturate, tdiv, tdiv_wide, smul, sdiv, ssqrt, fx_add, fx_sub, fx_mul, fx_div, fx_sqrt, lemma_tdiv_neg, ONE};

verus! {

#[derive(Clone, Copy, Debug, PartialEq, Eq, Structural)]
pub struct Vec3 {
    pub x: i64,
    pub y: i64,
    pub z: i64,
}

/// Builds a vector from three mathematical coordinates, saturating each.
pub open spec fn v3(x: int, y: int, z: int) -> Vec3 {
    Vec3 { x: sat(x) as i64, y: sat(y) as i64, z: sat(z) as i64 }
}

pub open spec fn vadd(a: Vec3, b: Vec3) -> Vec3 {
    v3(a.x + b.x, a.y + b.y, a.z + b.z)
}

pub open spec fn vsub(a: Vec3, b: Vec3) -> Vec3 {
    v3(a.x - b.x, a.y - b.y, a.z - b.z)
}

pub open spec fn vneg(a: Vec3) -> Vec3 {
    Vec3 { x: -a.x as i64, y: -a.y as i64, z: -a.z as i64 }
}

/// `k · a`.
pub open spec fn vscale(k: int, a: Vec3) -> Vec3 {
    Vec3 { x: smul(k, a.x as int) as i64, y: smul(k, a.y as int) as i64, z: smul(k, a.z as int) as i64 }
}

/// The elementwise product.
pub open spec fn vmul(a: Vec3, b: Vec3) -> Vec3 {
    Vec3 {
        x: smul(a.x as int, b.x as int) as i64,
        y: smul(a.y as int, b.y as int) as i64,
        z: smul(a.z as int, b.z as int) as i64,
    }
}

/// `a / k`, the zero vector when `k` is zero.
pub open spec fn vdiv(a: Vec3, k: int) -> Vec3 {
    Vec3 { x: sdiv(a.x as int, k) as i64, y: sdiv(a.y as int, k) as i64, z: sdiv(a.z as int, k) as i64 }
}

/// The dot product, rounded once.
pub open spec fn vdot(a: Vec3, b: Vec3) -> int {
    sat(tdiv(a.x * b.x + a.y * b.y + a.z * b.z, ONE as int))
}

pub open spec fn vcross(a: Vec3, b: Vec3) -> Vec3 {
    Vec3 {
        x: sat(tdiv(a.y * b.z - a.z * b.y, ONE as int)) as i64,
        y: sat(tdiv(a.z * b.x - a.x * b.z, ONE as int)) as i64,
        z: sat(tdiv(a.x * b.y - a.y * b.x, ONE as int)) as i64,
    }
}

pub open spec fn vlen(a: Vec3) -> int {
    ssqrt(vdot(a, a))
}

/// `a` divided by its length.
pub open spec fn vunit(a: Vec3) -> Vec3 {
    vdiv(a, vlen(a))
}

pub proof fn lemma_dot_neg(a: Vec3, b: Vec3)
    requires
        a.wf(),
    ensures
        vdot(vneg(a), b) == -vdot(a, b),
{
    let s = a.x * b.x + a.y * b.y + a.z * b.z;
    let n = vneg(a);
    assert(n.x == -a.x && n.y == -a.y && n.z == -a.z);
    assert(n.x * b.x + n.y * b.y + n.z * b.z == -s) by (nonlinear_arith)
        requires
            n.x == -a.x, n.y == -a.y, n.z == -a.z,
            s == a.x * b.x + a.y * b.y + a.z * b.z;
    lemma_tdiv_neg(s, ONE as int);
}

pub proof fn lemma_dot_sym(a: Vec3, b: Vec3)
    ensures
        vdot(a, b) == vdot(b, a),
{
    assert(a.x * b.x + a.y * b.y + a.z * b.z == b.x * a.x + b.y * a.y + b.z * a.z) by (nonlinear_arith);
}

/// Bounds a sum of three products of in-range values.
proof fn lemma_sum3_bound(a1: int, b1: int, a2: int, b2: int, a3: int, b3: int)
    requires
        in_range(a1), in_range(b1), in_range(a2), in_range(b2), in_range(a3), in_range(b3),
    ensures
        -0x1000_0000_0000_0000_0000_0000 <= a1 * b1 <= 0x1000_0000_0000_0000_0000_0000,
        -0x1000_0000_0000_0000_0000_0000 <= a2 * b2 <= 0x1000_0000_0000_0000_0000_0000,
        -0x1000_0000_0000_0000_0000_0000 <= a3 * b3 <= 0x1000_0000_0000_0000_0000_0000,
        -0x4000_0000_0000_0000_0000_0000 <= a1 * b1 + a2 * b2 + a3 * b3 <= 0x4000_0000_0000_0000_0000_0000,
        -0x4000_0000_0000_0000_0000_0000 <= a1 * b1 - a2 * b2 <= 0x4000_0000_0000_0000_0000_0000,
{
    assert(-0x1000_0000_0000_0000_0000_0000 <= a1 * b1 <= 0x1000_0000_0000_0000_0000_0000) by (nonlinear_arith)
        requires in_range(a1), in_range(b1);
    assert(-0x1000_0000_0000_0000_0000_0000 <= a2 * b2 <= 0x1000_0000_0000_0000_0000_0000) by (nonlinear_arith)
        requires in_range(a2), in_range(b2);
    assert(-0x1000_0000_0000_0000_0000_0000 <= a3 * b3 <= 0x1000_0000_0000_0000_0000_0000) by (nonlinear_arith)
        requires in_range(a3), in_range(b3);
}

impl Vec3 {
    /// Every coordinate lies in the fixed-point range.
    pub open spec fn wf(&self) -> bool {
        in_range(self.x as int) && in_range(self.y as int) && in_range(self.z as int)
    }

    /// A vector of the given raw coordinates, each saturated into range.
    pub fn new(x: i64, y: i64, z: i64) -> (r: Vec3)
        ensures
            r == v3(x as int, y as int, z as int),
            r.wf(),
    {
        Vec3 { x: saturate(x as i128), y: saturate(y as i128), z: saturate(z as i128) }
    }

    pub fn zero() -> (r: Vec3)
        ensures
            r == (Vec3 { x: 0, y: 0, z: 0 }),
            r.wf(),
    {
        Vec3 { x: 0, y: 0, z: 0 }
    }

    pub fn is_zero(&self) -> (r: bool)
        ensures
            r == (self.x == 0 && self.y == 0 && self.z == 0),
    {
        self.x == 0 && self.y == 0 && self.z == 0
    }

    pub fn add(&self, o: &Vec3) -> (r: Vec3)
        requires
            self.wf(),
            o.wf(),
        ensures
            r == vadd(*self, *o),
            r.wf(),
    {
        Vec3 { x: fx_add(self.x, o.x), y: fx_add(self.y, o.y), z: fx_add(self.z, o.z) }
    }

    pub fn sub(&self, o: &Vec3) -> (r: Vec3)
        requires
            self.wf(),
            o.wf(),
        ensures
            r == vsub(*self, *o),
            r.wf(),
    {
        Vec3 { x: fx_sub(self.x, o.x), y: fx_sub(self.y, o.y), z: fx_sub(self.z, o.z) }
    }

    pub fn neg(&self) -> (r: Vec3)
        requires
            self.wf(),
        ensures
            r == vneg(*self),
            r.wf(),
    {
        Vec3 { x: -self.x, y: -self.y, z: -self.z }
    }

    /// `k · self`.
    pub fn scale(&self, k: i64) -> (r: Vec3)
        requires
            self.wf(),
            in_range(k as int),
        ensures
            r == vscale(k as int, *self),
            r.wf(),
    {
        Vec3 { x: fx_mul(k, self.x), y: fx_mul(k, self.y), z: fx_mul(k, self.z) }
    }

    /// The elementwise product.
    pub fn mul_element_wise(&self, o: &Vec3) -> (r: Vec3)
        requires
            self.wf(),
            o.wf(),
        ensures
            r == vmul(*self, *o),
            r.wf(),
    {
        Vec3 { x: fx_mul(self.x, o.x), y: fx_mul(self.y, o.y), z: fx_mul(self.z, o.z) }
    }

    /// `self / k`; the zero vector when `k` is zero.
    pub fn div_scalar(&self, k: i64) -> (r: Vec3)
        requires
            self.wf(),
            in_range(k as int),
        ensures
            r == vdiv(*self, k as int),
            r.wf(),
    {
        Vec3 { x: fx_div(self.x, k), y: fx_div(self.y, k), z: fx_div(self.z, k) }
    }

    pub fn dot(&self, o: &Vec3) -> (r: i64)
        requires
            self.wf(),
            o.wf(),
        ensures
            r == vdot(*self, *o),
            in_range(r as int),
    {
        proof {
            lemma_sum3_bound(self.x as int, o.x as int, self.y as int, o.y as int, self.z as int, o.z as int);
        }
        let s: i128 = self.x as i128 * o.x as i128 + self.y as i128 * o.y as i128 + self.z as i128 * o.z as i128;
        saturate(tdiv_wide(s, ONE as i128))
    }

    pub fn cross(&self, o: &Vec3) -> (r: Vec3)
        requires
            self.wf(),
            o.wf(),
        ensures
            r == vcross(*self, *o),
            r.wf(),
    {
        proof {
            lemma_sum3_bound(self.y as int, o.z as int, self.z as int, o.y as int, 0, 0);
            lemma_sum3_bound(self.z as int, o.x as int, self.x as int, o.z as int, 0, 0);
            lemma_sum3_bound(self.x as int, o.y as int, self.y as int, o.x as int, 0, 0);
        }
        let cx: i128 = self.y as i128 * o.z as i128 - self.z as i128 * o.y as i128;
        let cy: i128 = self.z as i128 * o.x as i128 - self.x as i128 * o.z as i128;
        let cz: i128 = self.x as i128 * o.y as i128 - self.y as i128 * o.x as i128;
        Vec3 {
            x: saturate(tdiv_wide(cx, ONE as i128)),
            y: saturate(tdiv_wide(cy, ONE as i128)),
            z: saturate(tdiv_wide(cz, ONE as i128)),
        }
    }

    pub fn magnitude2(&self) -> (r: i64)
        requires
            self.wf(),
        ensures
            r == vdot(*self, *self),
            in_range(r as int),
    {
        self.dot(self)
    }

    pub fn magnitude(&self) -> (r: i64)
        requires
            self.wf(),
        ensures
            r == vlen(*self),
            0 <= r,
            in_range(r as int),
    {
        let d = self.magnitude2();
        fx_sqrt(d)
    }

    /// `self` divided by its length; the zero vector stays zero.
    pub fn unit(&self) -> (r: Vec3)
        requires
            self.wf(),
        ensures
            r == vunit(*self),
            r.wf(),
    {
        let len = self.magnitude();
        self.div_scalar(len)
    }
}

} // verus!
