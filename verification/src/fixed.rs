//! Fixed-point scalars.
//!
//! Every real quantity in the renderer (coordinates, colours, ray parameters)
//! is held as a signed 64-bit count of billionths, so that the geometric and
//! radiometric computations can be specified and proved exactly over `int`.
//! Products and quotients are evaluated in 128-bit intermediates and rounded
//! toward zero, once per operation.

use vstd::prelude::*;

verus! {

/// One unit of the representation stands for 1e-9; a stored value `v`
/// denotes the real number `v / SCALE`.
pub const SCALE: i64 = 1_000_000_000;

/// Magnitude of a mathematical integer.
pub open spec fn absi(a: int) -> int {
    if a < 0 {
        -a
    } else {
        a
    }
}

/// Division truncating toward zero: the rounding the executable
/// operations perform.
pub open spec fn tdiv(a: int, b: int) -> int
    recommends
        b != 0,
{
    let q = absi(a) / absi(b);
    if (a < 0) != (b < 0) {
        -q
    } else {
        q
    }
}

/// Product of two fixed-point values: the exact integer product, rescaled
/// and truncated toward zero.
pub open spec fn fmul(a: int, b: int) -> int {
    tdiv(a * b, SCALE as int)
}

/// Quotient of two fixed-point values.
pub open spec fn fdiv(a: int, b: int) -> int
    recommends
        b != 0,
{
    tdiv(a * (SCALE as int), b)
}

/// `r` is the floor of the square root of `n`.
pub open spec fn is_sqrt_floor(n: int, r: int) -> bool {
    0 <= r && r * r <= n && n < (r + 1) * (r + 1)
}

/// Floor of the square root of a nonnegative integer.
pub open spec fn sqrt_floor(n: int) -> int {
    choose|r: int| is_sqrt_floor(n, r)
}

/// The floor square root is characterized uniquely by its defining
/// inequalities.
pub proof fn lemma_sqrt_floor_unique(n: int, r: int)
    requires
        0 <= r,
        r * r <= n,
        n < (r + 1) * (r + 1),
    ensures
        sqrt_floor(n) == r,
{
    assert(exists|q: int| is_sqrt_floor(n, q)) by {
        assert(is_sqrt_floor(n, r));
    }
    let s = sqrt_floor(n);
    assert(is_sqrt_floor(n, s));
    assert(s == r) by (nonlinear_arith)
        requires
            0 <= r,
            r * r <= n,
            n < (r + 1) * (r + 1),
            0 <= s,
            s * s <= n,
            n < (s + 1) * (s + 1),
    ;
}

/// A magnitude bound on both factors bounds the magnitude of the product.
pub proof fn lemma_abs_mul_le(a: int, b: int, ca: int, cb: int)
    by (nonlinear_arith)
    requires
        absi(a) <= ca,
        absi(b) <= cb,
    ensures
        absi(a * b) <= ca * cb,
{
}

/// Truncating division by a positive divisor shrinks magnitudes: whatever
/// multiple of the divisor bounds the dividend also bounds the quotient.
pub proof fn lemma_tdiv_le(n: int, d: int, c: int)
    by (nonlinear_arith)
    requires
        d > 0,
        0 <= c,
        absi(n) <= c * d,
    ensures
        absi(tdiv(n, d)) <= c,
        tdiv(n, d) <= absi(n),
{
}

/// A product of values in the unit interval stays in the unit interval and
/// under either factor: the attenuation step never amplifies radiance.
pub proof fn lemma_fmul_unit(a: int, b: int)
    by (nonlinear_arith)
    requires
        0 <= a <= SCALE as int,
        0 <= b <= SCALE as int,
    ensures
        0 <= fmul(a, b),
        fmul(a, b) <= a,
        fmul(a, b) <= b,
{
}

/// Scaling by a zero factor gives exactly zero.
pub proof fn lemma_fmul_zero(a: int)
    ensures
        fmul(a, 0) == 0,
{
    assert(a * 0 == 0) by (nonlinear_arith);
}

/// Scaling by one is exact: multiplying by the scale and rescaling gives
/// the value back, whatever its sign.
pub proof fn lemma_fmul_scale_identity(x: int)
    by (nonlinear_arith)
    ensures
        fmul(x, SCALE as int) == x,
        fmul(SCALE as int, x) == x,
{
}

/// A nonnegative dividend strictly under `c` times the divisor has a
/// quotient strictly under `c`.
pub proof fn lemma_tdiv_strict(n: int, d: int, c: int)
    by (nonlinear_arith)
    requires
        n >= 0,
        d >= 1,
        n < c * d,
    ensures
        tdiv(n, d) < c,
{
}

/// A nonnegative dividend at least `c` times the divisor has a quotient
/// of at least `c`.
pub proof fn lemma_tdiv_lower(n: int, d: int, c: int)
    by (nonlinear_arith)
    requires
        n >= 0,
        d >= 1,
        0 <= c,
        n >= c * d,
    ensures
        tdiv(n, d) >= c,
{
}

/// Truncating signed division, evaluated on 128-bit intermediates.
pub(crate) fn tdiv128(n: i128, d: i128) -> (r: i128)
    requires
        d != 0,
        n > i128::MIN,
        d > i128::MIN,
    ensures
        r == tdiv(n as int, d as int),
        absi(r as int) <= absi(n as int),
{
    let neg: bool = (n < 0) != (d < 0);
    let mn: u128 = (if n < 0 {
        -n
    } else {
        n
    }) as u128;
    let md: u128 = (if d < 0 {
        -d
    } else {
        d
    }) as u128;
    let q: u128 = mn / md;
    assert(q <= mn) by (nonlinear_arith)
        requires
            md >= 1,
            q == mn / md,
    ;
    let qi: i128 = q as i128;
    if neg {
        -qi
    } else {
        qi
    }
}

/// Floor square root of a 128-bit integer, by bisection.
pub(crate) fn isqrt_u128(n: u128) -> (r: u128)
    requires
        n < 0x4000_0000_0000_0000_0000_0000_0000_0000,
    ensures
        r * r <= n,
        n < (r + 1) * (r + 1),
{
    let mut lo: u128 = 0;
    let mut hi: u128 = 0x8000_0000_0000_0000;
    assert(hi * hi > n) by (nonlinear_arith)
        requires
            hi == 0x8000_0000_0000_0000u128,
            n < 0x4000_0000_0000_0000_0000_0000_0000_0000,
    ;
    while lo + 1 < hi
        invariant
            lo < hi,
            hi <= 0x8000_0000_0000_0000,
            lo * lo <= n,
            n < hi * hi,
        decreases hi - lo,
    {
        let mid: u128 = lo + (hi - lo) / 2;
        assert(lo < mid < hi);
        assert(mid * mid <= u128::MAX) by (nonlinear_arith)
            requires
                mid <= 0x8000_0000_0000_0000u128,
        ;
        if mid * mid <= n {
            lo = mid;
        } else {
            hi = mid;
        }
    }
    lo
}

/// A real number held as a 64-bit integer count of billionths.
#[derive(Clone, Copy, PartialEq, Eq, Structural, Debug)]
pub struct Fixed {
    pub v: i64,
}

impl Fixed {
    /// The value zero.
    pub fn zero() -> (r: Fixed)
        ensures
            r.v == 0,
    {
        Fixed { v: 0 }
    }

    /// The value one.
    pub fn one() -> (r: Fixed)
        ensures
            r.v == SCALE as int,
    {
        Fixed { v: SCALE }
    }

    /// A whole number.
    pub fn from_int(i: i64) -> (r: Fixed)
        requires
            i64::MIN as int <= i * (SCALE as int) <= i64::MAX as int,
        ensures
            r.v == i * (SCALE as int),
    {
        Fixed { v: i * SCALE }
    }

    /// Sum.
    pub fn add(self, o: Fixed) -> (r: Fixed)
        requires
            i64::MIN as int <= self.v + o.v <= i64::MAX as int,
        ensures
            r.v == self.v + o.v,
    {
        Fixed { v: self.v + o.v }
    }

    /// Difference.
    pub fn sub(self, o: Fixed) -> (r: Fixed)
        requires
            i64::MIN as int <= self.v - o.v <= i64::MAX as int,
        ensures
            r.v == self.v - o.v,
    {
        Fixed { v: self.v - o.v }
    }

    /// Negation.
    pub fn neg(self) -> (r: Fixed)
        requires
            self.v > i64::MIN,
        ensures
            r.v == -self.v,
    {
        Fixed { v: -self.v }
    }

    /// Magnitude.
    pub fn abs(self) -> (r: Fixed)
        requires
            self.v > i64::MIN,
        ensures
            r.v == absi(self.v as int),
    {
        if self.v < 0 {
            Fixed { v: -self.v }
        } else {
            self
        }
    }

    /// Product, rounded toward zero.
    pub fn mul(self, o: Fixed) -> (r: Fixed)
        requires
            absi(self.v as int * o.v as int) <= (i64::MAX as int) * (SCALE as int),
        ensures
            r.v == fmul(self.v as int, o.v as int),
    {
        let n: i128 = (self.v as i128) * (o.v as i128);
        proof {
            lemma_tdiv_le(n as int, SCALE as int, i64::MAX as int);
        }
        let q: i128 = tdiv128(n, SCALE as i128);
        Fixed { v: q as i64 }
    }

    /// Quotient, rounded toward zero.
    pub fn div(self, o: Fixed) -> (r: Fixed)
        requires
            o.v != 0,
            absi(self.v as int) * (SCALE as int) <= (i64::MAX as int) * absi(o.v as int),
        ensures
            r.v == fdiv(self.v as int, o.v as int),
    {
        let n: i128 = (self.v as i128) * (SCALE as i128);
        proof {
            lemma_abs_mul_le(self.v as int, SCALE as int, absi(self.v as int), SCALE as int);
            lemma_tdiv_le(n as int, absi(o.v as int), i64::MAX as int);
            assert(absi(tdiv(n as int, o.v as int)) == absi(tdiv(n as int, absi(o.v as int))))
                by (nonlinear_arith);
        }
        let q: i128 = tdiv128(n, o.v as i128);
        Fixed { v: q as i64 }
    }

    /// Floor square root in the fixed-point representation: the result is
    /// the largest representable value whose square does not exceed `self`.
    pub fn sqrt(self) -> (r: Fixed)
        requires
            self.v >= 0,
        ensures
            r.v == sqrt_floor(self.v * (SCALE as int)),
            r.v >= 0,
            r.v * r.v <= self.v * (SCALE as int),
            self.v * (SCALE as int) < (r.v + 1) * (r.v + 1),
    {
        let n: u128 = (self.v as u128) * (SCALE as u128);
        let s: u128 = isqrt_u128(n);
        assert(s < 0x8000_0000_0000_0000u128) by (nonlinear_arith)
            requires
                s * s <= n,
                n < 0x4000_0000_0000_0000_0000_0000_0000_0000u128,
        ;
        proof {
            lemma_sqrt_floor_unique(n as int, s as int);
        }
        Fixed { v: s as i64 }
    }

    /// The smaller of two values.
    pub fn min(self, o: Fixed) -> (r: Fixed)
        ensures
            r.v == if self.v <= o.v {
                self.v
            } else {
                o.v
            },
    {
        if self.v <= o.v {
            self
        } else {
            o
        }
    }

    /// The larger of two values.
    pub fn max(self, o: Fixed) -> (r: Fixed)
        ensures
            r.v == if self.v >= o.v {
                self.v
            } else {
                o.v
            },
    {
        if self.v >= o.v {
            self
        } else {
            o
        }
    }

    /// The value forced into `[lo, hi]`.
    pub fn clamp(self, lo: Fixed, hi: Fixed) -> (r: Fixed)
        requires
            lo.v <= hi.v,
        ensures
            r.v == if self.v < lo.v {
                lo.v
            } else if self.v > hi.v {
                hi.v
            } else {
                self.v
            },
    {
        if self.v < lo.v {
            lo
        } else if self.v > hi.v {
            hi
        } else {
            self
        }
    }
}

} // verus!
