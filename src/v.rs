use vstd::prelude::*;

use crate::fp::{
    fp, fp_add, fp_div, fp_mul, fp_neg, fp_of, fp_sqrt, fp_sub, lemma_fp_add_exact,
    lemma_fp_mul_exact, lemma_fp_of_exact, lemma_fp_sub_exact, FpError, FP,
};

verus! {

/// Three-component vector of fixed-point numbers.
#[derive(Clone, Copy, Debug, PartialEq, Eq, Structural)]
pub struct V3 {
    pub x: FP,
    pub y: FP,
    pub z: FP,
}

/// The vector of the fixed-point values of three integers.
pub open spec fn v3_of(x: int, y: int, z: int) -> V3 {
    V3 { x: fp_of(x), y: fp_of(y), z: fp_of(z) }
}

/// Componentwise sum.
pub open spec fn v_add(a: V3, b: V3) -> V3 {
    V3 { x: fp_add(a.x, b.x), y: fp_add(a.y, b.y), z: fp_add(a.z, b.z) }
}

/// Componentwise difference.
pub open spec fn v_sub(a: V3, b: V3) -> V3 {
    V3 { x: fp_sub(a.x, b.x), y: fp_sub(a.y, b.y), z: fp_sub(a.z, b.z) }
}

/// Each component multiplied by `k`.
pub open spec fn v_scale(a: V3, k: FP) -> V3 {
    V3 { x: fp_mul(a.x, k), y: fp_mul(a.y, k), z: fp_mul(a.z, k) }
}

/// Componentwise negation.
pub open spec fn v_neg(a: V3) -> V3 {
    V3 { x: fp_neg(a.x), y: fp_neg(a.y), z: fp_neg(a.z) }
}

/// Sum of the componentwise products, added left to right.
pub open spec fn v_dot(a: V3, b: V3) -> FP {
    fp_add(fp_add(fp_mul(a.x, b.x), fp_mul(a.y, b.y)), fp_mul(a.z, b.z))
}

/// Cross product, in the determinant form.
pub open spec fn v_cross(a: V3, b: V3) -> V3 {
    V3 {
        x: fp_sub(fp_mul(a.y, b.z), fp_mul(a.z, b.y)),
        y: fp_sub(fp_mul(a.z, b.x), fp_mul(a.x, b.z)),
        z: fp_sub(fp_mul(a.x, b.y), fp_mul(a.y, b.x)),
    }
}

/// Length: the square root of the vector's dot product with itself.
pub open spec fn v_magnitude(a: V3) -> Result<FP, FpError> {
    fp_sqrt(v_dot(a, a))
}

/// The vector scaled by the reciprocal of its length.
pub open spec fn v_normalized(a: V3) -> Result<V3, FpError> {
    match v_magnitude(a) {
        Err(e) => Err(e),
        Ok(m) => match fp_div(fp_of(1), m) {
            Err(e) => Err(e),
            Ok(k) => Ok(v_scale(a, k)),
        },
    }
}

/// The vector of the fixed-point values of three integers.
pub fn v3(x: i32, y: i32, z: i32) -> (r: V3)
    ensures
        r == v3_of(x as int, y as int, z as int),
{
    V3::new(fp(x), fp(y), fp(z))
}

impl V3 {
    pub fn new(x: FP, y: FP, z: FP) -> (r: V3)
        ensures
            r == (V3 { x, y, z }),
    {
        V3 { x: x, y: y, z: z }
    }

    pub fn dot(&self, other: &V3) -> (r: FP)
        ensures
            r == v_dot(*self, *other),
    {
        self.x * other.x + self.y * other.y + self.z * other.z
    }

    /// Unit vector of the same direction; fails where the length is zero or
    /// its square wrapped negative.
    pub fn normalized(&self) -> (r: Result<V3, FpError>)
        ensures
            r == v_normalized(*self),
    {
        let m = match self.dot(self).sqrt() {
            Ok(m) => m,
            Err(e) => return Err(e),
        };
        match fp(1).checked_div(m) {
            Ok(k) => Ok(*self * k),
            Err(e) => Err(e),
        }
    }

    pub fn cross(&self, other: &V3) -> (r: V3)
        ensures
            r == v_cross(*self, *other),
    {
        V3::new(
            self.y * other.z - self.z * other.y,
            self.z * other.x - self.x * other.z,
            self.x * other.y - self.y * other.x,
        )
    }

    /// Length of the vector.
    pub fn abs(&self) -> (r: Result<FP, FpError>)
        ensures
            r == v_magnitude(*self),
    {
        self.dot(self).sqrt()
    }
}

impl core::ops::Add for V3 {
    type Output = V3;

    fn add(self, other: V3) -> (r: V3)
        ensures
            r == v_add(self, other),
    {
        V3::new(self.x + other.x, self.y + other.y, self.z + other.z)
    }
}

impl vstd::std_specs::ops::AddSpecImpl for V3 {
    open spec fn obeys_add_spec() -> bool {
        true
    }

    open spec fn add_req(self, rhs: V3) -> bool {
        true
    }

    open spec fn add_spec(self, rhs: V3) -> V3 {
        v_add(self, rhs)
    }
}

impl core::ops::Sub for V3 {
    type Output = V3;

    fn sub(self, other: V3) -> (r: V3)
        ensures
            r == v_sub(self, other),
    {
        V3::new(self.x - other.x, self.y - other.y, self.z - other.z)
    }
}

impl vstd::std_specs::ops::SubSpecImpl for V3 {
    open spec fn obeys_sub_spec() -> bool {
        true
    }

    open spec fn sub_req(self, rhs: V3) -> bool {
        true
    }

    open spec fn sub_spec(self, rhs: V3) -> V3 {
        v_sub(self, rhs)
    }
}

impl core::ops::Mul<FP> for V3 {
    type Output = V3;

    fn mul(self, other: FP) -> (r: V3)
        ensures
            r == v_scale(self, other),
    {
        V3::new(self.x * other, self.y * other, self.z * other)
    }
}

impl vstd::std_specs::ops::MulSpecImpl<FP> for V3 {
    open spec fn obeys_mul_spec() -> bool {
        true
    }

    open spec fn mul_req(self, rhs: FP) -> bool {
        true
    }

    open spec fn mul_spec(self, rhs: FP) -> V3 {
        v_scale(self, rhs)
    }
}

impl core::ops::Neg for V3 {
    type Output = V3;

    fn neg(self) -> (r: V3)
        ensures
            r == v_neg(self),
    {
        V3::new(core::ops::Neg::neg(self.x), core::ops::Neg::neg(self.y), core::ops::Neg::neg(self.z))
    }
}

impl vstd::std_specs::ops::NegSpecImpl for V3 {
    open spec fn obeys_neg_spec() -> bool {
        true
    }

    open spec fn neg_req(self) -> bool {
        true
    }

    open spec fn neg_spec(self) -> V3 {
        v_neg(self)
    }
}

/// The dot product is symmetric.
pub proof fn lemma_dot_commutes(a: V3, b: V3)
    ensures
        v_dot(a, b) == v_dot(b, a),
{
    assert(a.x.0 * b.x.0 == b.x.0 * a.x.0) by (nonlinear_arith);
    assert(a.y.0 * b.y.0 == b.y.0 * a.y.0) by (nonlinear_arith);
    assert(a.z.0 * b.z.0 == b.z.0 * a.z.0) by (nonlinear_arith);
}

/// Absolute value of an integer.
pub open spec fn iabs(x: int) -> int {
    if x < 0 {
        -x
    } else {
        x
    }
}

/// Rounding bounds of one term: `c` is the difference of `p` and `q` each
/// rescaled, `e` its error against `p - q` rescaled, and `s` the error of
/// rescaling `c * w` in turn.
proof fn lemma_rounded_term(p: int, q: int, w: int)
    ensures
        ({
            let c = p / 256 - q / 256;
            let e = 256 * c - (p - q);
            let s = c * w - 256 * ((c * w) / 256);
            &&& -255 <= e <= 255
            &&& 0 <= s < 256
            &&& (256 * c) * w == (p - q) * w + e * w
            &&& iabs(e * w) <= 255 * iabs(w)
        }),
{
    let c = p / 256 - q / 256;
    let e = 256 * c - (p - q);
    assert(-255 <= e <= 255);
    assert((256 * c) * w == (p - q) * w + e * w) by (nonlinear_arith)
        requires
            e == 256 * c - (p - q),
    ;
    assert(iabs(e * w) <= 255 * iabs(w)) by (nonlinear_arith)
        requires
            -255 <= e <= 255,
    ;
}

/// Where `w` is orthogonal to the exact vector `(p1 - q1, p2 - q2, p3 - q3)`,
/// it is orthogonal to its rescaled rounding within the rounding error.
proof fn lemma_rounded_orthogonal(w1: int, w2: int, w3: int, p1: int, q1: int, p2: int, q2: int, p3: int, q3: int)
    requires
        w1 * (p1 - q1) + w2 * (p2 - q2) + w3 * (p3 - q3) == 0,
    ensures
        ({
            let c1 = p1 / 256 - q1 / 256;
            let c2 = p2 / 256 - q2 / 256;
            let c3 = p3 / 256 - q3 / 256;
            256 * iabs((c1 * w1) / 256 + (c2 * w2) / 256 + (c3 * w3) / 256) <= iabs(w1) + iabs(w2)
                + iabs(w3) + 768
        }),
{
    lemma_rounded_term(p1, q1, w1);
    lemma_rounded_term(p2, q2, w2);
    lemma_rounded_term(p3, q3, w3);
    let c1 = p1 / 256 - q1 / 256;
    let c2 = p2 / 256 - q2 / 256;
    let c3 = p3 / 256 - q3 / 256;
    assert((p1 - q1) * w1 + (p2 - q2) * w2 + (p3 - q3) * w3 == 0) by (nonlinear_arith)
        requires
            w1 * (p1 - q1) + w2 * (p2 - q2) + w3 * (p3 - q3) == 0,
    ;
    assert((256 * c1) * w1 == 256 * (c1 * w1)) by (nonlinear_arith);
    assert((256 * c2) * w2 == 256 * (c2 * w2)) by (nonlinear_arith);
    assert((256 * c3) * w3 == 256 * (c3 * w3)) by (nonlinear_arith);
}

/// The cross product is orthogonal to both factors within the rounding of
/// fixed point: for components of at most 64 units, its dot product with
/// either factor is at most `(|x| + |y| + |z|) / 256 + 3` raw units, where
/// `x`, `y` and `z` are that factor's raw components.
pub proof fn lemma_cross_orthogonal(a: V3, b: V3)
    requires
        -0x4000 <= a.x.0 <= 0x4000,
        -0x4000 <= a.y.0 <= 0x4000,
        -0x4000 <= a.z.0 <= 0x4000,
        -0x4000 <= b.x.0 <= 0x4000,
        -0x4000 <= b.y.0 <= 0x4000,
        -0x4000 <= b.z.0 <= 0x4000,
    ensures
        256 * iabs(v_dot(v_cross(a, b), a).0 as int) <= iabs(a.x.0 as int) + iabs(a.y.0 as int) + iabs(
            a.z.0 as int,
        ) + 768,
        256 * iabs(v_dot(v_cross(a, b), b).0 as int) <= iabs(b.x.0 as int) + iabs(b.y.0 as int) + iabs(
            b.z.0 as int,
        ) + 768,
{
    let (ax, ay, az) = (a.x.0 as int, a.y.0 as int, a.z.0 as int);
    let (bx, by, bz) = (b.x.0 as int, b.y.0 as int, b.z.0 as int);
    assert forall|u: int, v: int| -0x4000 <= u <= 0x4000 && -0x4000 <= v <= 0x4000 implies -0x1000_0000
        <= #[trigger] (u * v) <= 0x1000_0000 by {
        assert(-0x1000_0000 <= u * v <= 0x1000_0000) by (nonlinear_arith)
            requires
                -0x4000 <= u <= 0x4000,
                -0x4000 <= v <= 0x4000,
        ;
    }
    lemma_fp_mul_exact(a.y, b.z);
    lemma_fp_mul_exact(a.z, b.y);
    lemma_fp_mul_exact(a.z, b.x);
    lemma_fp_mul_exact(a.x, b.z);
    lemma_fp_mul_exact(a.x, b.y);
    lemma_fp_mul_exact(a.y, b.x);
    let c = v_cross(a, b);
    lemma_fp_sub_exact(fp_mul(a.y, b.z), fp_mul(a.z, b.y));
    lemma_fp_sub_exact(fp_mul(a.z, b.x), fp_mul(a.x, b.z));
    lemma_fp_sub_exact(fp_mul(a.x, b.y), fp_mul(a.y, b.x));
    let (cx, cy, cz) = (c.x.0 as int, c.y.0 as int, c.z.0 as int);
    assert(-0x20_0000 <= cx <= 0x20_0000);
    assert(-0x20_0000 <= cy <= 0x20_0000);
    assert(-0x20_0000 <= cz <= 0x20_0000);
    assert forall|u: int, v: int| -0x20_0000 <= u <= 0x20_0000 && -0x4000 <= v <= 0x4000 implies -0x8_0000_0000
        <= #[trigger] (u * v) <= 0x8_0000_0000 by {
        assert(-0x8_0000_0000 <= u * v <= 0x8_0000_0000) by (nonlinear_arith)
            requires
                -0x20_0000 <= u <= 0x20_0000,
                -0x4000 <= v <= 0x4000,
        ;
    }
    lemma_fp_mul_exact(c.x, a.x);
    lemma_fp_mul_exact(c.y, a.y);
    lemma_fp_mul_exact(c.z, a.z);
    lemma_fp_add_exact(fp_mul(c.x, a.x), fp_mul(c.y, a.y));
    lemma_fp_add_exact(fp_add(fp_mul(c.x, a.x), fp_mul(c.y, a.y)), fp_mul(c.z, a.z));
    lemma_fp_mul_exact(c.x, b.x);
    lemma_fp_mul_exact(c.y, b.y);
    lemma_fp_mul_exact(c.z, b.z);
    lemma_fp_add_exact(fp_mul(c.x, b.x), fp_mul(c.y, b.y));
    lemma_fp_add_exact(fp_add(fp_mul(c.x, b.x), fp_mul(c.y, b.y)), fp_mul(c.z, b.z));
    assert(ax * (ay * bz - az * by) + ay * (az * bx - ax * bz) + az * (ax * by - ay * bx) == 0)
        by (nonlinear_arith);
    assert(bx * (ay * bz - az * by) + by * (az * bx - ax * bz) + bz * (ax * by - ay * bx) == 0)
        by (nonlinear_arith);
    lemma_rounded_orthogonal(ax, ay, az, ay * bz, az * by, az * bx, ax * bz, ax * by, ay * bx);
    lemma_rounded_orthogonal(bx, by, bz, ay * bz, az * by, az * bx, ax * bz, ax * by, ay * bx);
    assert(cx * ax == ax * cx && cy * ay == ay * cy && cz * az == az * cz) by (nonlinear_arith);
}

/// The product of two whole-unit values is exact while it stays within
/// `0x3f_ffff` units.
proof fn lemma_mul_whole(a: FP, b: FP, p: int, q: int)
    requires
        a.0 == 256 * p,
        b.0 == 256 * q,
        -0x3f_ffff <= p * q <= 0x3f_ffff,
    ensures
        fp_mul(a, b).0 == 256 * (p * q),
{
    let k = p * q;
    assert(a.0 * b.0 == 65536 * k) by (nonlinear_arith)
        requires
            a.0 == 256 * p,
            b.0 == 256 * q,
            k == p * q,
    ;
    lemma_fp_mul_exact(a, b);
}

/// For vectors of whole units, each component at most 100 in magnitude, the
/// cross product is exactly orthogonal to both factors: nothing is rounded.
pub proof fn lemma_cross_orthogonal_exact(ax: int, ay: int, az: int, bx: int, by: int, bz: int)
    requires
        -100 <= ax <= 100,
        -100 <= ay <= 100,
        -100 <= az <= 100,
        -100 <= bx <= 100,
        -100 <= by <= 100,
        -100 <= bz <= 100,
    ensures
        v_dot(v_cross(v3_of(ax, ay, az), v3_of(bx, by, bz)), v3_of(ax, ay, az)) == fp_of(0),
        v_dot(v_cross(v3_of(ax, ay, az), v3_of(bx, by, bz)), v3_of(bx, by, bz)) == fp_of(0),
{
    let a = v3_of(ax, ay, az);
    let b = v3_of(bx, by, bz);
    lemma_fp_of_exact(0);
    lemma_fp_of_exact(ax);
    lemma_fp_of_exact(ay);
    lemma_fp_of_exact(az);
    lemma_fp_of_exact(bx);
    lemma_fp_of_exact(by);
    lemma_fp_of_exact(bz);
    assert forall|u: int, w: int| -100 <= u <= 100 && -100 <= w <= 100 implies -10000 <= #[trigger] (u * w)
        <= 10000 by {
        assert(-10000 <= u * w <= 10000) by (nonlinear_arith)
            requires
                -100 <= u <= 100,
                -100 <= w <= 100,
        ;
    }
    lemma_mul_whole(a.y, b.z, ay, bz);
    lemma_mul_whole(a.z, b.y, az, by);
    lemma_mul_whole(a.z, b.x, az, bx);
    lemma_mul_whole(a.x, b.z, ax, bz);
    lemma_mul_whole(a.x, b.y, ax, by);
    lemma_mul_whole(a.y, b.x, ay, bx);
    let (x1, x2, x3) = (ay * bz - az * by, az * bx - ax * bz, ax * by - ay * bx);
    let c = v_cross(a, b);
    lemma_fp_sub_exact(fp_mul(a.y, b.z), fp_mul(a.z, b.y));
    lemma_fp_sub_exact(fp_mul(a.z, b.x), fp_mul(a.x, b.z));
    lemma_fp_sub_exact(fp_mul(a.x, b.y), fp_mul(a.y, b.x));
    assert(c.x.0 == 256 * x1 && c.y.0 == 256 * x2 && c.z.0 == 256 * x3);
    assert forall|u: int, w: int| -20000 <= u <= 20000 && -100 <= w <= 100 implies -2000000 <= #[trigger] (u
        * w) <= 2000000 by {
        assert(-2000000 <= u * w <= 2000000) by (nonlinear_arith)
            requires
                -20000 <= u <= 20000,
                -100 <= w <= 100,
        ;
    }
    lemma_mul_whole(c.x, a.x, x1, ax);
    lemma_mul_whole(c.y, a.y, x2, ay);
    lemma_mul_whole(c.z, a.z, x3, az);
    lemma_fp_add_exact(fp_mul(c.x, a.x), fp_mul(c.y, a.y));
    lemma_fp_add_exact(fp_add(fp_mul(c.x, a.x), fp_mul(c.y, a.y)), fp_mul(c.z, a.z));
    lemma_mul_whole(c.x, b.x, x1, bx);
    lemma_mul_whole(c.y, b.y, x2, by);
    lemma_mul_whole(c.z, b.z, x3, bz);
    lemma_fp_add_exact(fp_mul(c.x, b.x), fp_mul(c.y, b.y));
    lemma_fp_add_exact(fp_add(fp_mul(c.x, b.x), fp_mul(c.y, b.y)), fp_mul(c.z, b.z));
    assert(x1 * ax + x2 * ay + x3 * az == 0) by (nonlinear_arith)
        requires
            x1 == ay * bz - az * by,
            x2 == az * bx - ax * bz,
            x3 == ax * by - ay * bx,
    ;
    assert(x1 * bx + x2 * by + x3 * bz == 0) by (nonlinear_arith)
        requires
            x1 == ay * bz - az * by,
            x2 == az * bx - ax * bz,
            x3 == ax * by - ay * bx,
    ;
}

} // verus!
