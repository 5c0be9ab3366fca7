use vstd::prelude::*;
use vstd::arithmetic::div_mod::{lemma_div_is_ordered, lemma_div_multiples_vanish};

verus! {

// All geometry in this crate is fixed-point: lengths and coordinates are
// held in tenths of a pixel ("deci-pixels"), angles in tenths of a degree,
// trigonometric values in thousandths ("milli" units), and opacities in
// hundredths ("centi" units).

/// The sine approximation used throughout the generators, scaled by 1000,
/// on half a turn: `x` is an angle in tenths of a degree with
/// `0 <= x <= 1800`.  Opaque: callers match the trigonometric values
/// term for term; only the implementation proofs look inside.
#[verifier::opaque]
pub open spec fn spec_half_sin(x: int) -> int {
    (4000 * (x * (1800 - x))) / (4050000 - x * (1800 - x))
}

/// Sine scaled by 1000 for an angle `a` in tenths of a degree,
/// `0 <= a < 3600`.
#[verifier::opaque]
pub open spec fn spec_sin_milli(a: int) -> int {
    if a < 1800 {
        spec_half_sin(a)
    } else {
        -spec_half_sin(a - 1800)
    }
}

/// Cosine scaled by 1000, derived from the sine by a quarter-turn shift.
#[verifier::opaque]
pub open spec fn spec_cos_milli(a: int) -> int {
    spec_sin_milli((a + 900) % 3600)
}

proof fn lemma_half_sin_bounds(x: int)
    requires
        0 <= x <= 1800,
    ensures
        0 <= spec_half_sin(x) <= 1000,
{
    reveal(spec_half_sin);
    let p = x * (1800 - x);
    assert(0 <= p <= 810000) by (nonlinear_arith)
        requires 0 <= x <= 1800, p == x * (1800 - x);
    let num = 4000 * p;
    let den = 4050000 - p;
    assert(den >= 3240000);
    assert(num >= 0);
    assert(num / den >= 0) by {
        lemma_div_is_ordered(0, num, den);
    }
    assert(num <= 1000 * den) by (nonlinear_arith)
        requires 0 <= p <= 810000, num == 4000 * p, den == 4050000 - p;
    assert(num / den <= (1000 * den) / den) by {
        lemma_div_is_ordered(num, 1000 * den, den);
    }
    assert((1000 * den) / den == 1000) by {
        lemma_div_multiples_vanish(1000, den);
    }
}

/// Sine of half a turn, scaled by 1000.
fn half_sin(x: i64) -> (r: i64)
    requires
        0 <= x <= 1800,
    ensures
        r == spec_half_sin(x as int),
        0 <= r <= 1000,
{
    proof {
        reveal(spec_half_sin);
        lemma_half_sin_bounds(x as int);
        assert(0 <= x * (1800 - x) <= 810000) by (nonlinear_arith)
            requires 0 <= x <= 1800;
    }
    let p: i64 = x * (1800 - x);
    (4000 * p) / (4050000 - p)
}

/// Sine scaled by 1000; `a` is an angle in tenths of a degree.
pub fn sin_milli(a: u32) -> (r: i64)
    requires
        a < 3600,
    ensures
        r == spec_sin_milli(a as int),
        -1000 <= r <= 1000,
{
    proof {
        reveal(spec_sin_milli);
        if a < 1800 {
            lemma_half_sin_bounds(a as int);
        } else {
            lemma_half_sin_bounds(a - 1800);
        }
    }
    if a < 1800 {
        half_sin(a as i64)
    } else {
        -half_sin(a as i64 - 1800)
    }
}

/// Cosine scaled by 1000; `a` is an angle in tenths of a degree.
pub fn cos_milli(a: u32) -> (r: i64)
    requires
        a < 3600,
    ensures
        r == spec_cos_milli(a as int),
        -1000 <= r <= 1000,
{
    proof {
        reveal(spec_cos_milli);
    }
    sin_milli((a + 900) % 3600)
}

/// Whether `r` is the integer square root of `n`.
pub open spec fn is_isqrt(r: int, n: int) -> bool {
    0 <= r && r * r <= n < (r + 1) * (r + 1)
}

/// The integer square root of a non-negative `n`, as a value: the
/// unique `r` with `r * r <= n < (r + 1) * (r + 1)`.
pub open spec fn spec_isqrt(n: int) -> int {
    choose|r: int| is_isqrt(r, n)
}

/// The integer square root is unique.
pub proof fn lemma_isqrt_unique(a: int, b: int, n: int)
    requires
        is_isqrt(a, n),
        is_isqrt(b, n),
    ensures
        a == b,
{
    assert(a == b) by (nonlinear_arith)
        requires
            0 <= a,
            0 <= b,
            a * a <= n < (a + 1) * (a + 1),
            b * b <= n < (b + 1) * (b + 1),
    ;
}

/// Integer square root: the greatest `r` with `r * r <= n`.
pub fn isqrt(n: u64) -> (r: u64)
    requires
        n < 0x4000_0000_0000_0000,
    ensures
        r * r <= n,
        n < (r + 1) * (r + 1),
        r < 0x8000_0000,
        r == spec_isqrt(n as int),
{
    let mut lo: u64 = 0;
    let mut hi: u64 = 0x8000_0000;
    assert(hi * hi > n) by (nonlinear_arith)
        requires hi == 0x8000_0000, n < 0x4000_0000_0000_0000;
    while lo + 1 < hi
        invariant
            lo < hi <= 0x8000_0000,
            lo * lo <= n,
            n < hi * hi,
        decreases hi - lo,
    {
        let mid: u64 = lo + (hi - lo) / 2;
        assert(lo < mid < hi);
        proof {
            assert(mid * mid < 0x8000_0000 * 0x8000_0000) by (nonlinear_arith)
                requires mid < 0x8000_0000;
        }
        if mid * mid <= n {
            lo = mid;
        } else {
            hi = mid;
        }
    }
    proof {
        assert(is_isqrt(lo as int, n as int));
        assert(is_isqrt(spec_isqrt(n as int), n as int));
        lemma_isqrt_unique(lo as int, spec_isqrt(n as int), n as int);
    }
    lo
}

/// `v` scaled by the milli-factor `m`, rounded toward zero.  Opaque:
/// callers match it term for term; only its own implementation proof
/// looks inside.
#[verifier::opaque]
pub open spec fn spec_scale_milli(v: int, m: int) -> int {
    let av = if v < 0 { -v } else { v };
    let am = if m < 0 { -m } else { m };
    if (v < 0) != (m < 0) {
        -((av * am) / 1000)
    } else {
        (av * am) / 1000
    }
}

/// Scales `v` by the milli-factor `m` (for instance a sine value),
/// rounding toward zero.
pub fn scale_milli(v: i64, m: i64) -> (r: i64)
    requires
        -0x100_0000_0000 <= v <= 0x100_0000_0000,
        -1000 <= m <= 1000,
    ensures
        r == spec_scale_milli(v as int, m as int),
        -0x100_0000_0000 <= r <= 0x100_0000_0000,
        v >= 0 && m >= 0 ==> 0 <= r <= v,
        v >= 0 ==> -v <= r <= v,
        v < 0 ==> v <= r <= -v,
{
    proof {
        reveal(spec_scale_milli);
    }
    let av: i64 = if v < 0 { -v } else { v };
    let am: i64 = if m < 0 { -m } else { m };
    let neg: bool = (v < 0) != (m < 0);
    assert(av * am <= av * 1000) by (nonlinear_arith)
        requires 0 <= av, 0 <= am <= 1000;
    let mag: i64 = (av * am) / 1000;
    assert(0 <= av * am);
    assert((av * am) / 1000 <= (av * 1000) / 1000) by {
        lemma_div_is_ordered(av * am, av * 1000, 1000);
    }
    assert((av * 1000) / 1000 == av) by {
        lemma_div_multiples_vanish(av as int, 1000);
    }
    assert((av * am) / 1000 >= 0) by {
        lemma_div_is_ordered(0, av * am, 1000);
    }
    if neg {
        -mag
    } else {
        mag
    }
}

/// The diagonal length of a `w` by `h` box, in the same (deci-pixel)
/// unit, rounded down.  It is never shorter than either side.
pub fn diagonal(w: i64, h: i64) -> (r: i64)
    requires
        0 <= w <= 0x100_0000,
        0 <= h <= 0x100_0000,
    ensures
        w <= r <= 0x200_0000,
        h <= r,
        r == spec_isqrt(w * w + h * h),
{
    proof {
        assert(0 <= w * w <= 0x100_0000 * 0x100_0000) by (nonlinear_arith)
            requires 0 <= w <= 0x100_0000;
        assert(0 <= h * h <= 0x100_0000 * 0x100_0000) by (nonlinear_arith)
            requires 0 <= h <= 0x100_0000;
    }
    let n: u64 = (w * w) as u64 + (h * h) as u64;
    let r: u64 = isqrt(n);
    assert(r <= 0x200_0000) by (nonlinear_arith)
        requires r * r <= n, n <= 2 * 0x100_0000 * 0x100_0000;
    assert(w <= r && h <= r) by (nonlinear_arith)
        requires
            n < (r + 1) * (r + 1),
            n >= w * w + h * h,
            0 <= w,
            0 <= h,
            0 <= r,
            w * w + h * h == n,
    ;
    r as i64
}

} // verus!
