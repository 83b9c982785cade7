use vstd::arithmetic::div_mod::{lemma_add_mod_noop, lemma_div_by_multiple, lemma_mul_mod_noop_right};
use vstd::prelude::*;

verus! {

/// Number of fractional bits of the fixed-point representation.
pub const DECIMAL_BITS: u32 = 8;

/// Raw value of the offset used for central differences: half a unit, so
/// that the two samples of a difference lie one unit apart.
pub const EPSILON: i32 = 128;

/// Two's-complement wraparound of a mathematical integer into the `i32` range.
#[verifier::opaque]
pub open spec fn wrap(x: int) -> int {
    let m = x % 0x1_0000_0000;
    if m > 0x7fff_ffff {
        m - 0x1_0000_0000
    } else {
        m
    }
}

/// Integer division that rounds toward zero, as Rust's `/` on integers does.
pub open spec fn trunc_div(x: int, d: int) -> int {
    if x == 0 {
        0
    } else if x > 0 && d > 0 {
        x / d
    } else if x < 0 && d < 0 {
        (-x) / (-d)
    } else if x < 0 {
        -((-x) / d)
    } else {
        -(x / (-d))
    }
}

/// A numeric fault of fixed-point arithmetic.
#[derive(Clone, Copy, Debug, PartialEq, Eq, Structural)]
pub enum FpError {
    /// A division whose divisor is zero.
    DivisionByZero,
    /// A square root of a negative value.
    DomainError,
}

/// Signed fixed-point number with `DECIMAL_BITS` fractional bits: the raw value
/// `n` stands for `n / 256`.
#[derive(Clone, Copy, Debug, PartialEq, Eq, Structural, PartialOrd, Ord)]
pub struct FP(pub i32);

/// The fixed-point value of the integer `a`.
pub open spec fn fp_of(a: int) -> FP {
    FP(wrap(a * 256) as i32)
}

/// Sum of the raw values, wrapping around.
pub open spec fn fp_add(a: FP, b: FP) -> FP {
    FP(wrap(a.0 + b.0) as i32)
}

/// Difference of the raw values, wrapping around.
pub open spec fn fp_sub(a: FP, b: FP) -> FP {
    FP(wrap(a.0 - b.0) as i32)
}

/// Negation, wrapping around (the most negative value is its own negation).
pub open spec fn fp_neg(a: FP) -> FP {
    FP(wrap(-a.0) as i32)
}

/// Product of the raw values, rescaled by rounding down.
pub open spec fn fp_mul(a: FP, b: FP) -> FP {
    FP(wrap((a.0 * b.0) / 256) as i32)
}

/// Quotient for a nonzero divisor: the dividend is scaled up first, and the
/// division rounds toward zero.
pub open spec fn fp_quot(a: FP, b: FP) -> FP {
    FP(wrap(trunc_div(a.0 * 256, b.0 as int)) as i32)
}

/// Quotient, or `DivisionByZero` for a zero divisor.
pub open spec fn fp_div(a: FP, b: FP) -> Result<FP, FpError> {
    if b.0 == 0 {
        Err(FpError::DivisionByZero)
    } else {
        Ok(fp_quot(a, b))
    }
}

/// Absolute value, wrapping around like `fp_neg`.
pub open spec fn fp_abs(a: FP) -> FP {
    if a.0 < 0 {
        fp_neg(a)
    } else {
        a
    }
}

/// `n` Newton steps `x := (x + s / x) / 2` for the square root of `s`; a
/// division fault in any step ends the computation.
pub open spec fn newton(s: FP, x: FP, n: nat) -> Result<FP, FpError>
    decreases n,
{
    if n == 0 {
        Ok(x)
    } else {
        match fp_div(s, x) {
            Ok(q) => newton(s, fp_quot(fp_add(x, q), fp_of(2)), (n - 1) as nat),
            Err(e) => Err(e),
        }
    }
}

/// Number of Newton steps taken by `sqrt`.
pub const SQRT_STEPS: u32 = 10;

/// Square root: negative values are a domain fault, zero is its own root, and
/// any other value runs `SQRT_STEPS` Newton steps from half of itself.
pub open spec fn fp_sqrt(s: FP) -> Result<FP, FpError> {
    if s.0 < 0 {
        Err(FpError::DomainError)
    } else if s.0 == 0 {
        Ok(FP(0))
    } else {
        newton(s, fp_quot(s, fp_of(2)), SQRT_STEPS as nat)
    }
}

proof fn lemma_wrap_range(x: int)
    ensures
        i32::MIN <= wrap(x) <= i32::MAX,
{
    reveal(wrap);
}

proof fn lemma_shr_i64(p: i64)
    ensures
        p >> 8u32 == p / 256,
{
    assert(p >> 8u32 == p / 256) by (bit_vector);
}

proof fn lemma_shr_i32(p: i32)
    ensures
        p >> 8u32 == p / 256,
{
    assert(p >> 8u32 == p / 256) by (bit_vector);
}

/// `wrap` leaves a value of the `i32` range as it is.
pub proof fn lemma_wrap_id(x: int)
    requires
        i32::MIN <= x <= i32::MAX,
    ensures
        wrap(x) == x,
{
    reveal(wrap);
}

/// The fixed-point value of an integer small enough not to wrap is the
/// integer times 256.
pub proof fn lemma_fp_of_exact(a: int)
    requires
        -0x80_0000 <= a < 0x80_0000,
    ensures
        fp_of(a).0 == a * 256,
{
    lemma_wrap_id(a * 256);
}

/// A product whose rescaled value fits in `i32` does not wrap.
pub proof fn lemma_fp_mul_exact(a: FP, b: FP)
    requires
        -0x40_0000_0000 <= a.0 * b.0 < 0x40_0000_0000,
    ensures
        fp_mul(a, b).0 == (a.0 * b.0) / 256,
{
    lemma_wrap_id((a.0 * b.0) / 256);
}

/// A sum that fits in `i32` does not wrap.
pub proof fn lemma_fp_add_exact(a: FP, b: FP)
    requires
        i32::MIN <= a.0 + b.0 <= i32::MAX,
    ensures
        fp_add(a, b).0 == a.0 + b.0,
{
    lemma_wrap_id(a.0 + b.0);
}

/// A difference that fits in `i32` does not wrap.
pub proof fn lemma_fp_sub_exact(a: FP, b: FP)
    requires
        i32::MIN <= a.0 - b.0 <= i32::MAX,
    ensures
        fp_sub(a, b).0 == a.0 - b.0,
{
    lemma_wrap_id(a.0 - b.0);
}

proof fn lemma_wrap_mod(x: int)
    ensures
        wrap(x) % 0x1_0000_0000 == x % 0x1_0000_0000,
{
    reveal(wrap);
}

proof fn lemma_wrap_congruent(x: int, y: int)
    requires
        x % 0x1_0000_0000 == y % 0x1_0000_0000,
    ensures
        wrap(x) == wrap(y),
{
    reveal(wrap);
}

/// Adding the fixed-point values of two integers gives the fixed-point value
/// of their sum (wraparound included).
pub proof fn lemma_fp_add_of_ints(a: i32, b: i32)
    ensures
        fp_add(fp_of(a as int), fp_of(b as int)) == fp_of(a + b),
{
    let x = a * 256;
    let y = b * 256;
    lemma_wrap_range(x);
    lemma_wrap_range(y);
    lemma_wrap_mod(x);
    lemma_wrap_mod(y);
    lemma_add_mod_noop(wrap(x), wrap(y), 0x1_0000_0000);
    lemma_add_mod_noop(x, y, 0x1_0000_0000);
    lemma_wrap_congruent(wrap(x) + wrap(y), x + y);
    assert(x + y == (a + b) * 256);
}

/// Multiplying the fixed-point value of an integer by two gives the
/// fixed-point value of twice the integer, exactly.
pub proof fn lemma_fp_mul_two(a: i32)
    ensures
        fp_mul(fp_of(a as int), fp_of(2)) == fp_of(2 * a),
{
    let x = a * 256;
    let w = wrap(x);
    lemma_wrap_range(x);
    lemma_fp_of_exact(2);
    assert(w * 512 == (2 * w) * 256);
    assert((w * 512) / 256 == 2 * w) by {
        lemma_div_by_multiple(2 * w + 0x1_0000_0000, 256);
        assert((2 * w + 0x1_0000_0000) * 256 == w * 512 + 0x1_0000_0000 * 256);
    }
    lemma_wrap_mod(x);
    lemma_mul_mod_noop_right(2, w, 0x1_0000_0000);
    lemma_mul_mod_noop_right(2, x, 0x1_0000_0000);
    lemma_wrap_congruent(2 * w, 2 * x);
    assert(2 * x == (2 * a) * 256);
}

/// A nonzero fixed-point value divided by itself is exactly one.
pub proof fn lemma_fp_div_self(a: FP)
    requires
        a.0 != 0,
    ensures
        fp_div(a, a) == Ok::<FP, FpError>(fp_of(1)),
{
    if a.0 > 0 {
        lemma_div_by_multiple(256, a.0 as int);
        assert(a.0 * 256 == 256 * a.0);
    } else {
        lemma_div_by_multiple(256, -a.0);
        assert(-(a.0 * 256) == 256 * (-a.0));
    }
    assert(trunc_div(a.0 * 256, a.0 as int) == 256);
}

/// Narrows a wide intermediate back to `i32`, wrapping around.
fn narrow(q: i64) -> (r: i32)
    ensures
        r == wrap(q as int),
{
    reveal(wrap);
    let m: i64 = match q.checked_rem_euclid(0x1_0000_0000) {
        Some(m) => m,
        None => 0,
    };
    if m > 0x7fff_ffff {
        (m - 0x1_0000_0000) as i32
    } else {
        m as i32
    }
}

/// The fixed-point value of an integer; integers outside `i32 / 256` wrap.
pub fn fp(a: i32) -> (r: FP)
    ensures
        r == fp_of(a as int),
{
    proof {
        lemma_wrap_range(a * 256);
    }
    FP(narrow(a as i64 * 256))
}

impl FP {
    /// Division that reports a zero divisor instead of failing.
    pub fn checked_div(self, other: FP) -> (r: Result<FP, FpError>)
        ensures
            r == fp_div(self, other),
    {
        if other.0 == 0 {
            Err(FpError::DivisionByZero)
        } else {
            Ok(self / other)
        }
    }

    /// Square root by a fixed number of Newton steps.
    pub fn sqrt(self) -> (r: Result<FP, FpError>)
        ensures
            r == fp_sqrt(self),
    {
        if self.0 < 0 {
            return Err(FpError::DomainError);
        }
        if self.0 == 0 {
            return Ok(FP(0));
        }
        let two = fp(2);
        proof {
            lemma_fp_of_exact(2);
        }
        let mut x = self / two;
        let mut i: u32 = 0;
        while i < SQRT_STEPS
            invariant
                i <= SQRT_STEPS,
                two == fp_of(2),
                two.0 == 512,
                self.0 > 0,
                newton(self, x, (SQRT_STEPS - i) as nat) == fp_sqrt(self),
            decreases SQRT_STEPS - i,
        {
            let q = match self.checked_div(x) {
                Ok(q) => q,
                Err(e) => return Err(e),
            };
            x = (x + q) / two;
            i = i + 1;
        }
        Ok(x)
    }

    /// Integer part, rounded down.
    pub fn to_i32(self) -> (r: i32)
        ensures
            r == self.0 / 256,
    {
        proof {
            lemma_shr_i32(self.0);
        }
        self.0 >> DECIMAL_BITS
    }

    /// Absolute value; the most negative value wraps onto itself.
    pub fn abs(self) -> (r: FP)
        ensures
            r == fp_abs(self),
    {
        if self.0 < 0 {
            core::ops::Neg::neg(self)
        } else {
            self
        }
    }
}

impl core::ops::Add for FP {
    type Output = FP;

    fn add(self, other: FP) -> (r: FP)
        ensures
            r == fp_add(self, other),
    {
        proof {
            lemma_wrap_range(self.0 + other.0);
        }
        FP(narrow(self.0 as i64 + other.0 as i64))
    }
}

impl vstd::std_specs::ops::AddSpecImpl for FP {
    open spec fn obeys_add_spec() -> bool {
        true
    }

    open spec fn add_req(self, rhs: FP) -> bool {
        true
    }

    open spec fn add_spec(self, rhs: FP) -> FP {
        fp_add(self, rhs)
    }
}

impl core::ops::Sub for FP {
    type Output = FP;

    fn sub(self, other: FP) -> (r: FP)
        ensures
            r == fp_sub(self, other),
    {
        proof {
            lemma_wrap_range(self.0 - other.0);
        }
        FP(narrow(self.0 as i64 - other.0 as i64))
    }
}

impl vstd::std_specs::ops::SubSpecImpl for FP {
    open spec fn obeys_sub_spec() -> bool {
        true
    }

    open spec fn sub_req(self, rhs: FP) -> bool {
        true
    }

    open spec fn sub_spec(self, rhs: FP) -> FP {
        fp_sub(self, rhs)
    }
}

impl core::ops::Mul for FP {
    type Output = FP;

    fn mul(self, other: FP) -> (r: FP)
        ensures
            r == fp_mul(self, other),
    {
        let a = self.0 as i64;
        let b = other.0 as i64;
        assert(-0x4000_0000_0000_0000 <= a * b <= 0x4000_0000_0000_0000) by (nonlinear_arith)
            requires
                -0x8000_0000 <= a <= 0x7fff_ffff,
                -0x8000_0000 <= b <= 0x7fff_ffff,
        ;
        let p = a * b;
        proof {
            lemma_shr_i64(p);
            lemma_wrap_range(p / 256);
        }
        FP(narrow(p >> DECIMAL_BITS))
    }
}

impl vstd::std_specs::ops::MulSpecImpl for FP {
    open spec fn obeys_mul_spec() -> bool {
        true
    }

    open spec fn mul_req(self, rhs: FP) -> bool {
        true
    }

    open spec fn mul_spec(self, rhs: FP) -> FP {
        fp_mul(self, rhs)
    }
}

impl core::ops::Div for FP {
    type Output = FP;

    /// Fixed-point quotient. Verified callers must give a nonzero divisor
    /// (`checked_div` reports a zero one instead); where unverified code divides
    /// by zero, the quotient saturates to the largest value of the dividend's
    /// sign.
    fn div(self, other: FP) -> (r: FP)
        ensures
            r == fp_quot(self, other),
    {
        let n = self.0 as i64 * 256;
        proof {
            lemma_wrap_range(trunc_div(self.0 * 256, other.0 as int));
        }
        match n.checked_div(other.0 as i64) {
            Some(q) => FP(narrow(q)),
            None => if self.0 < 0 {
                FP(i32::MIN)
            } else {
                FP(i32::MAX)
            },
        }
    }
}

impl vstd::std_specs::ops::DivSpecImpl for FP {
    open spec fn obeys_div_spec() -> bool {
        true
    }

    open spec fn div_req(self, rhs: FP) -> bool {
        rhs.0 != 0
    }

    open spec fn div_spec(self, rhs: FP) -> FP {
        fp_quot(self, rhs)
    }
}

impl core::ops::Neg for FP {
    type Output = FP;

    fn neg(self) -> (r: FP)
        ensures
            r == fp_neg(self),
    {
        proof {
            lemma_wrap_range(-self.0);
        }
        FP(narrow(-(self.0 as i64)))
    }
}

impl vstd::std_specs::ops::NegSpecImpl for FP {
    open spec fn obeys_neg_spec() -> bool {
        true
    }

    open spec fn neg_req(self) -> bool {
        true
    }

    open spec fn neg_spec(self) -> FP {
        fp_neg(self)
    }
}

/// One Newton step for the square root of `s` from `x`, as `sqrt` takes it.
pub open spec fn newton_step(s: FP, x: FP) -> FP {
    fp_quot(fp_add(x, fp_quot(s, x)), fp_of(2))
}

proof fn lemma_newton_unfold(s: FP, x: FP, m: nat)
    requires
        x.0 != 0,
    ensures
        newton(s, x, m + 1) == newton(s, newton_step(s, x), m),
{
    assert(((m + 1) as nat - 1) as nat == m);
}

/// Integer Newton step toward the root `r` of `nn`: it never goes below the
/// root, its error shrinks quadratically, and from above it does not grow.
proof fn lemma_int_newton(nn: int, r: int, x: int)
    requires
        r >= 1,
        r * r == nn,
        x >= 1,
    ensures
        (x + nn / x) / 2 >= r,
        2 * x * ((x + nn / x) / 2 - r) <= (x - r) * (x - r),
        x >= r ==> (x + nn / x) / 2 <= x,
{
    let q = nn / x;
    let y = (x + q) / 2;
    assert(x * q <= nn < x * (q + 1)) by (nonlinear_arith)
        requires
            q == nn / x,
            x >= 1,
    ;
    assert(x + q >= 2 * r) by (nonlinear_arith)
        requires
            x * q <= nn,
            nn < x * (q + 1),
            r * r == nn,
            x >= 1,
            r >= 1,
    ;
    assert(2 * x * (y - r) <= (x - r) * (x - r)) by (nonlinear_arith)
        requires
            2 * y <= x + q,
            x * q <= nn,
            r * r == nn,
            x >= 1,
    ;
    if x >= r {
        assert(q <= x) by (nonlinear_arith)
            requires
                x * q <= nn,
                r * r == nn,
                x >= r,
                r >= 1,
        ;
    }
}

/// An error bound carried through one Newton step: if `e <= (a/b) r` and
/// `2 (r + e) e2 <= e^2`, then `e2 <= (c/d) r`, provided `c/d` is at least
/// `(a/b)^2 / (2 (1 + a/b))`.
proof fn lemma_error_bound(r: int, e: int, e2: int, a: int, b: int, c: int, d: int)
    requires
        r >= 1,
        e >= 0,
        e2 >= 0,
        a >= 1,
        b >= 1,
        c >= 1,
        d >= 1,
        b * e <= a * r,
        2 * (r + e) * e2 <= e * e,
        d * a * a <= 2 * c * b * (b + a),
    ensures
        d * e2 <= c * r,
{
    // d e^2 <= 2 c r (r + e), by convexity between e == 0 and e == a r / b.
    assert(b * d * e * e <= d * e * a * r) by (nonlinear_arith)
        requires
            b * e <= a * r,
            e >= 0,
            d >= 1,
    ;
    if d * a <= 2 * c * b {
        assert(d * e * a * r <= 2 * c * b * r * e) by (nonlinear_arith)
            requires
                d * a <= 2 * c * b,
                e >= 0,
                r >= 1,
        ;
        assert(b * d * e * e <= b * 2 * c * r * (r + e)) by (nonlinear_arith)
            requires
                b * d * e * e <= 2 * c * b * r * e,
                r >= 1,
                c >= 1,
                b >= 1,
        ;
    } else {
        let k = d * a - 2 * c * b;
        assert(e * k * b <= a * r * k) by (nonlinear_arith)
            requires
                b * e <= a * r,
                k > 0,
                e >= 0,
        ;
        assert(a * k <= 2 * c * b * b) by (nonlinear_arith)
            requires
                d * a * a <= 2 * c * b * (b + a),
                k == d * a - 2 * c * b,
        ;
        assert(a * r * k <= 2 * c * b * b * r) by (nonlinear_arith)
            requires
                a * k <= 2 * c * b * b,
                r >= 1,
        ;
        assert(e * k <= 2 * c * b * r) by (nonlinear_arith)
            requires
                e * k * b <= 2 * c * b * b * r,
                b >= 1,
        ;
        assert(e * r * k <= 2 * c * b * r * r) by (nonlinear_arith)
            requires
                e * k <= 2 * c * b * r,
                r >= 1,
        ;
        assert(d * e * a * r == e * r * k + 2 * c * b * r * e) by (nonlinear_arith)
            requires
                k == d * a - 2 * c * b,
        ;
        assert(b * 2 * c * r * (r + e) == 2 * c * b * r * r + 2 * c * b * r * e) by (nonlinear_arith);
    }
    assert(d * e * e <= 2 * c * r * (r + e)) by (nonlinear_arith)
        requires
            b * d * e * e <= b * 2 * c * r * (r + e),
            b >= 1,
    ;
    assert(d * e2 * 2 * (r + e) <= c * r * 2 * (r + e)) by (nonlinear_arith)
        requires
            2 * (r + e) * e2 <= e * e,
            d * e * e <= 2 * c * r * (r + e),
            d >= 1,
    ;
    assert(d * e2 <= c * r) by (nonlinear_arith)
        requires
            d * e2 * 2 * (r + e) <= c * r * 2 * (r + e),
            r >= 1,
            e >= 0,
    ;
}

/// For `s` the fixed-point value of `n * n`, a Newton step is the integer
/// Newton step toward the root `256 n` of `256 * s`.
proof fn lemma_fp_newton_step(s: FP, x: FP, n: int)
    requires
        1 <= n <= 100,
        s.0 == 256 * (n * n),
        1 <= x.0 <= 0x1000_0000,
    ensures
        newton_step(s, x).0 == (x.0 + (65536 * (n * n)) / (x.0 as int)) / 2,
{
    let nn = 65536 * (n * n);
    assert(1 <= n * n <= 10000) by (nonlinear_arith)
        requires
            1 <= n <= 100,
    ;
    let q = nn / (x.0 as int);
    assert(0 <= q <= nn) by (nonlinear_arith)
        requires
            q == nn / (x.0 as int),
            x.0 >= 1,
            nn >= 0,
    ;
    assert(s.0 * 256 == nn);
    lemma_wrap_id(q);
    assert(fp_quot(s, x).0 == q);
    lemma_fp_add_exact(x, fp_quot(s, x));
    lemma_fp_of_exact(2);
    lemma_wrap_id((x.0 + q) / 2);
}

/// One Newton step of the square root of `n * n` from above the root `r`,
/// carrying the error bound `(a/b) r` to `(c/d) r`.
proof fn lemma_newton_chain(s: FP, n: int, x: FP, a: int, b: int, c: int, d: int)
    requires
        1 <= n <= 100,
        s.0 == 256 * (n * n),
        256 * n <= x.0 <= 0x1000_0000,
        a >= 1,
        b >= 1,
        c >= 1,
        d >= 1,
        b * (x.0 - 256 * n) <= a * (256 * n),
        d * a * a <= 2 * c * b * (b + a),
    ensures
        256 * n <= newton_step(s, x).0 <= x.0,
        d * (newton_step(s, x).0 - 256 * n) <= c * (256 * n),
{
    let r = 256 * n;
    let nn = 65536 * (n * n);
    assert(r * r == nn) by (nonlinear_arith)
        requires
            r == 256 * n,
            nn == 65536 * (n * n),
    ;
    lemma_fp_newton_step(s, x, n);
    lemma_int_newton(nn, r, x.0 as int);
    let y = newton_step(s, x).0 as int;
    assert(2 * (r + (x.0 - r)) * (y - r) <= (x.0 - r) * (x.0 - r));
    lemma_error_bound(r, x.0 - r, y - r, a, b, c, d);
}

/// For a whole number `n` from 1 to 100, the square root of the fixed-point
/// value of `n * n` has integer part `n`: ten Newton steps from half the
/// value bring the estimate within a unit above the root.
pub proof fn lemma_sqrt_of_square(n: int)
    requires
        1 <= n <= 100,
    ensures
        fp_sqrt(fp_of(n * n)) is Ok,
        (fp_sqrt(fp_of(n * n))->Ok_0).0 / 256 == n,
{
    assert(1 <= n * n <= 10000) by (nonlinear_arith)
        requires
            1 <= n <= 100,
    ;
    lemma_fp_of_exact(n * n);
    lemma_fp_of_exact(2);
    let s = fp_of(n * n);
    let r = 256 * n;
    let nn = 65536 * (n * n);
    assert(r * r == nn) by (nonlinear_arith)
        requires
            r == 256 * n,
            nn == 65536 * (n * n),
    ;
    let x0 = fp_quot(s, fp_of(2));
    lemma_wrap_id(128 * (n * n));
    assert(x0.0 == 128 * (n * n));
    // The first step lands above the root, within 25 roots of it.
    lemma_fp_newton_step(s, x0, n);
    lemma_int_newton(nn, r, x0.0 as int);
    let x1 = newton_step(s, x0);
    assert((x0.0 - r) * (x0.0 - r) <= 50 * r * x0.0) by (nonlinear_arith)
        requires
            1 <= n <= 100,
            x0.0 == 128 * (n * n),
            r == 256 * n,
    ;
    assert(x1.0 - r <= 25 * r) by (nonlinear_arith)
        requires
            2 * x0.0 * (x1.0 - r) <= (x0.0 - r) * (x0.0 - r),
            (x0.0 - r) * (x0.0 - r) <= 50 * r * x0.0,
            x0.0 >= 1,
    ;
    // Then the error shrinks: 13, 7, 4, 2, 1, 1/4, 1/40, 1/3280 roots.
    lemma_newton_chain(s, n, x1, 25, 1, 13, 1);
    let x2 = newton_step(s, x1);
    lemma_newton_chain(s, n, x2, 13, 1, 7, 1);
    let x3 = newton_step(s, x2);
    lemma_newton_chain(s, n, x3, 7, 1, 4, 1);
    let x4 = newton_step(s, x3);
    lemma_newton_chain(s, n, x4, 4, 1, 2, 1);
    let x5 = newton_step(s, x4);
    lemma_newton_chain(s, n, x5, 2, 1, 1, 1);
    let x6 = newton_step(s, x5);
    lemma_newton_chain(s, n, x6, 1, 1, 1, 4);
    let x7 = newton_step(s, x6);
    lemma_newton_chain(s, n, x7, 1, 4, 1, 40);
    let x8 = newton_step(s, x7);
    lemma_newton_chain(s, n, x8, 1, 40, 1, 3280);
    let x9 = newton_step(s, x8);
    lemma_newton_chain(s, n, x9, 1, 3280, 1, 3280);
    let x10 = newton_step(s, x9);
    assert(r <= x10.0 <= r + 7);
    lemma_newton_unfold(s, x0, 9);
    lemma_newton_unfold(s, x1, 8);
    lemma_newton_unfold(s, x2, 7);
    lemma_newton_unfold(s, x3, 6);
    lemma_newton_unfold(s, x4, 5);
    lemma_newton_unfold(s, x5, 4);
    lemma_newton_unfold(s, x6, 3);
    lemma_newton_unfold(s, x7, 2);
    lemma_newton_unfold(s, x8, 1);
    lemma_newton_unfold(s, x9, 0);
    assert(newton(s, x10, 0) == Ok::<FP, FpError>(x10));
    assert(fp_sqrt(s) == Ok::<FP, FpError>(x10));
}

} // verus!
