use vstd::prelude::*;
use vstd::arithmetic::div_mod::{lemma_fundamental_div_mod, lemma_fundamental_div_mod_converse};

verus! {

/// 2^64.
pub const HALF: u128 = 0x1_0000_0000_0000_0000;

/// 2^128 as a mathematical integer.
pub open spec fn word() -> int {
    0x1_0000_0000_0000_0000_0000_0000_0000_0000int
}

/// An unsigned 256-bit integer held as two 128-bit words.
#[derive(Clone, Copy, Debug, PartialEq, Eq, Structural)]
pub struct Wide {
    pub hi: u128,
    pub lo: u128,
}

impl Wide {
    /// The number that the two words stand for.
    pub open spec fn value(self) -> int {
        self.hi * word() + self.lo
    }

    pub fn zero() -> (r: Wide)
        ensures
            r.value() == 0,
    {
        Wide { hi: 0, lo: 0 }
    }

    /// Whether `self` is at least `other`.
    pub fn ge(&self, other: &Wide) -> (r: bool)
        ensures
            r == (self.value() >= other.value()),
    {
        if self.hi != other.hi {
            self.hi > other.hi
        } else {
            self.lo >= other.lo
        }
    }

    /// Whether the value is zero.
    pub fn is_zero(&self) -> (r: bool)
        ensures
            r == (self.value() == 0),
    {
        self.hi == 0 && self.lo == 0
    }
}

/// `s` is the integer square root of `v`.
pub open spec fn is_sqrt(s: int, v: int) -> bool {
    0 <= s && s * s <= v < (s + 1) * (s + 1)
}

/// The full product of two 128-bit words.
pub fn mul_wide(a: u128, b: u128) -> (r: Wide)
    ensures
        r.value() == a * b,
{
    let a0 = a % HALF;
    let a1 = a / HALF;
    let b0 = b % HALF;
    let b1 = b / HALF;
    assert(a0 * b0 <= (HALF - 1) * (HALF - 1)) by (nonlinear_arith)
        requires
            a0 < HALF,
            b0 < HALF,
    ;
    assert(a0 * b1 <= (HALF - 1) * (HALF - 1)) by (nonlinear_arith)
        requires
            a0 < HALF,
            b1 < HALF,
    ;
    assert(a1 * b0 <= (HALF - 1) * (HALF - 1)) by (nonlinear_arith)
        requires
            a1 < HALF,
            b0 < HALF,
    ;
    assert(a1 * b1 <= (HALF - 1) * (HALF - 1)) by (nonlinear_arith)
        requires
            a1 < HALF,
            b1 < HALF,
    ;
    let p00 = a0 * b0;
    let p01 = a0 * b1;
    let p10 = a1 * b0;
    let p11 = a1 * b1;
    let mid = p00 / HALF + p01 % HALF + p10 % HALF;
    let lo = p00 % HALF + (mid % HALF) * HALF;
    let hi = p11 + p01 / HALF + p10 / HALF + mid / HALF;
    assert(a * b == p11 * (HALF * HALF) + (p01 + p10) * HALF + p00) by (nonlinear_arith)
        requires
            a == a1 * HALF + a0,
            b == b1 * HALF + b0,
            p00 == a0 * b0,
            p01 == a0 * b1,
            p10 == a1 * b0,
            p11 == a1 * b1,
    ;
    assert(HALF * HALF == word());
    assert(hi * word() + lo == a * b) by (nonlinear_arith)
        requires
            a * b == p11 * (HALF * HALF) + (p01 + p10) * HALF + p00,
            HALF * HALF == word(),
            p00 == (p00 / HALF) * HALF + p00 % HALF,
            p01 == (p01 / HALF) * HALF + p01 % HALF,
            p10 == (p10 / HALF) * HALF + p10 % HALF,
            mid == (mid / HALF) * HALF + mid % HALF,
            mid == p00 / HALF + p01 % HALF + p10 % HALF,
            lo == p00 % HALF + (mid % HALF) * HALF,
            hi == p11 + p01 / HALF + p10 / HALF + mid / HALF,
    ;
    Wide { hi, lo }
}

/// The integer square root of a 256-bit value.
pub fn sqrt_wide(v: Wide) -> (r: u128)
    ensures
        is_sqrt(r as int, v.value()),
        r == isqrt(v.value()),
{
    let mut low: u128 = 0;
    let mut high: u128 = u128::MAX;
    assert(v.value() < (u128::MAX + 1) * (u128::MAX + 1));
    while low < high
        invariant
            low <= high,
            low * low <= v.value(),
            v.value() < (high + 1) * (high + 1),
        decreases high - low,
    {
        let mid: u128 = low + (high - low) / 2 + 1;
        let sq = mul_wide(mid, mid);
        if v.ge(&sq) {
            low = mid;
        } else {
            high = mid - 1;
        }
    }
    proof {
        lemma_isqrt(low as int, v.value());
    }
    low
}

/// 2^256 as a mathematical integer.
pub open spec fn modulus() -> int {
    word() * word()
}

/// The Q112.112 fixed-point encoding of `n / d`, truncated.
pub open spec fn uq112_value(n: int, d: int) -> int {
    n * 0x1_0000_0000_0000_0000_0000_0000_0000int / d
}

/// The sum of two 256-bit values, wrapping at 2^256.
pub fn wrapping_add(a: Wide, b: Wide) -> (r: Wide)
    ensures
        r.value() == (a.value() + b.value()) % modulus(),
{
    let lo = a.lo.wrapping_add(b.lo);
    let carry: u128 = if lo < a.lo {
        1
    } else {
        0
    };
    let hi = a.hi.wrapping_add(b.hi).wrapping_add(carry);
    proof {
        let w = word();
        assert(a.lo + b.lo == carry * w + lo);
        let k: int = (a.hi + b.hi + carry - hi) / w;
        assert(a.hi + b.hi + carry == hi + k * w);
        assert(hi * w + lo < w * w) by (nonlinear_arith)
            requires
                0 <= hi < w,
                0 <= lo < w,
        ;
        assert(a.value() + b.value() == k * (w * w) + (hi * w + lo)) by (nonlinear_arith)
            requires
                a.lo + b.lo == carry * w + lo,
                a.hi + b.hi + carry == hi + k * w,
                a.value() == a.hi * w + a.lo,
                b.value() == b.hi * w + b.lo,
        ;
        lemma_fundamental_div_mod_converse(a.value() + b.value(), w * w, k, hi * w + lo);
    }
    Wide { hi, lo }
}

/// The product of a 256-bit value and a 32-bit factor, wrapping at 2^256.
pub fn wrapping_mul_u32(a: Wide, e: u32) -> (r: Wide)
    ensures
        r.value() == (a.value() * e) % modulus(),
{
    let c = mul_wide(a.lo, e as u128);
    let d = mul_wide(a.hi, e as u128);
    let hi = d.lo.wrapping_add(c.hi);
    proof {
        let w = word();
        let k: int = (d.lo + c.hi - hi) / w;
        assert(d.lo + c.hi == hi + k * w);
        assert(hi * w + c.lo < w * w) by (nonlinear_arith)
            requires
                0 <= hi < w,
                0 <= c.lo < w,
        ;
        assert(a.value() * e == (d.hi + k) * (w * w) + (hi * w + c.lo)) by (nonlinear_arith)
            requires
                c.hi * w + c.lo == a.lo * e,
                d.hi * w + d.lo == a.hi * e,
                d.lo + c.hi == hi + k * w,
                a.value() == a.hi * w + a.lo,
        ;
        lemma_fundamental_div_mod_converse(a.value() * e, w * w, d.hi + k, hi * w + c.lo);
    }
    Wide { hi, lo: c.lo }
}

/// One base-2^14 digit of a long division by `d`.
fn division_step(f: u128, rem: u128, d: u128, Ghost(p): Ghost<int>) -> (r: (u128, u128))
    requires
        0 < d < 0x1_0000_0000_0000_0000_0000_0000_0000,
        rem < d,
        1 <= p <= 0x4_0000_0000_0000_0000_0000_0000,
        f * d + rem < d * p,
    ensures
        r.0 * d + r.1 == (f * d + rem) * 16384,
        r.1 < d,
        r.0 * d + r.1 < d * (p * 16384),
{
    assert(f < p) by (nonlinear_arith)
        requires
            f * d + rem < d * p,
            0 < d,
            0 <= rem,
            0 <= f,
    ;
    assert(rem * 16384 < d * 16384) by (nonlinear_arith)
        requires
            rem < d,
    ;
    let x = rem * 16384;
    let digit = x / d;
    let next = x % d;
    assert(digit < 16384) by (nonlinear_arith)
        requires
            x < d * 16384,
            digit == x / d,
            0 < d,
    ;
    assert(x == digit * d + next) by {
        lemma_fundamental_div_mod(x as int, d as int);
        assert(d * digit == digit * d) by (nonlinear_arith);
    }
    let f2 = f * 16384 + digit;
    assert(f2 * d + next < d * (p * 16384)) by (nonlinear_arith)
        requires
            f2 == f * 16384 + digit,
            x == digit * d + next,
            x == rem * 16384,
            f * d + rem < d * p,
    ;
    assert(f2 * d + next == (f * d + rem) * 16384) by (nonlinear_arith)
        requires
            f2 == f * 16384 + digit,
            x == digit * d + next,
            x == rem * 16384,
    ;
    (f2, next)
}

/// The Q112.112 fixed-point encoding of the quotient `n / d`.
pub fn uq112_div(n: u128, d: u128) -> (r: Wide)
    requires
        n < 0x1_0000_0000_0000_0000_0000_0000_0000,
        0 < d < 0x1_0000_0000_0000_0000_0000_0000_0000,
    ensures
        r.value() == uq112_value(n as int, d as int),
{
    let q = n / d;
    let rem = n % d;
    assert(n == q * d + rem) by {
        lemma_fundamental_div_mod(n as int, d as int);
        assert(d * q == q * d) by (nonlinear_arith);
    }
    assert(q <= n) by (nonlinear_arith)
        requires
            n == q * d + rem,
            0 < d,
            0 <= rem,
    ;
    let (f, x) = division_step(0, rem, d, Ghost(1));
    let (f, x) = division_step(f, x, d, Ghost(0x4000));
    let (f, x) = division_step(f, x, d, Ghost(0x10000000));
    let (f, x) = division_step(f, x, d, Ghost(0x40000000000));
    let (f, x) = division_step(f, x, d, Ghost(0x100000000000000));
    let (f, x) = division_step(f, x, d, Ghost(0x400000000000000000));
    let (f, x) = division_step(f, x, d, Ghost(0x1000000000000000000000));
    let (f, x) = division_step(f, x, d, Ghost(0x4000000000000000000000000));
    let ghost two112: int = 0x1_0000_0000_0000_0000_0000_0000_0000int;
    assert(f * d + x == rem * two112);
    assert(f < two112) by (nonlinear_arith)
        requires
            f * d + x < d * two112,
            0 < d,
            0 <= x,
            0 <= f,
    ;
    assert(n * two112 == (q * two112 + f) * d + x) by (nonlinear_arith)
        requires
            n == q * d + rem,
            f * d + x == rem * two112,
    ;
    proof {
        lemma_fundamental_div_mod_converse(n * two112, d as int, q * two112 + f, x as int);
    }
    let hi = q / 65536;
    let lo = (q % 65536) * 0x1_0000_0000_0000_0000_0000_0000_0000 + f;
    assert(hi * word() + lo == q * two112 + f);
    Wide { hi, lo }
}

/// The integer square root of `v`.
pub open spec fn isqrt(v: int) -> int {
    choose|s: int| is_sqrt(s, v)
}

/// The integer square root is unique.
pub proof fn lemma_isqrt(s: int, v: int)
    requires
        is_sqrt(s, v),
    ensures
        isqrt(v) == s,
{
    let t = isqrt(v);
    assert(is_sqrt(t, v));
    if t < s {
        assert((t + 1) * (t + 1) <= s * s) by (nonlinear_arith)
            requires
                0 <= t < s,
        ;
    } else if s < t {
        assert((s + 1) * (s + 1) <= t * t) by (nonlinear_arith)
            requires
                0 <= s < t,
        ;
    }
}

} // verus!
