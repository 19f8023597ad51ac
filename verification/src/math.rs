//! Fixed-point arithmetic helpers shared by the geometry and ray-march code.

use vstd::prelude::*;

verus! {

/// Fixed-point scale: a fractional quantity is stored as the real value
/// multiplied by `SCALE`, truncated to an integer.  Degrees, elevations,
/// slopes, cell sizes and distances all use this one scale.
pub const SCALE: i64 = 1000;

/// `r` is the floor of the real square root of `n`.
pub open spec fn is_sqrt(n: int, r: int) -> bool {
    &&& 0 <= r
    &&& r * r <= n
    &&& n < (r + 1) * (r + 1)
}

/// The floor of the real square root of `n` (for `n >= 0`).
pub open spec fn sqrt_floor(n: int) -> int {
    choose|r: int| is_sqrt(n, r)
}

/// The square root floor exists, so `sqrt_floor` satisfies `is_sqrt`.
pub proof fn lemma_sqrt_floor_exists(n: int)
    requires
        0 <= n,
    ensures
        is_sqrt(n, sqrt_floor(n)),
    decreases n,
{
    if n == 0 {
        assert(is_sqrt(0, 0));
    } else {
        lemma_sqrt_floor_exists(n - 1);
        let p = sqrt_floor(n - 1);
        if n < (p + 1) * (p + 1) {
            assert(is_sqrt(n, p));
        } else {
            assert(n == (p + 1) * (p + 1));
            assert((p + 2) * (p + 2) > (p + 1) * (p + 1)) by (nonlinear_arith)
                requires
                    p >= 0,
            ;
            assert(is_sqrt(n, p + 1));
        }
    }
}

/// Any `r` with `is_sqrt(n, r)` is the unique square root floor of `n`.
pub proof fn lemma_sqrt_unique(n: int, r: int)
    requires
        0 <= n,
        is_sqrt(n, r),
    ensures
        r == sqrt_floor(n),
{
    lemma_sqrt_floor_exists(n);
    let s = sqrt_floor(n);
    if r < s {
        assert((r + 1) * (r + 1) <= s * s) by (nonlinear_arith)
            requires
                0 <= r + 1 <= s,
        ;
    }
    if s < r {
        assert((s + 1) * (s + 1) <= r * r) by (nonlinear_arith)
            requires
                0 <= s + 1 <= r,
        ;
    }
}

/// The square root floor is monotone.
pub proof fn lemma_sqrt_mono(a: int, b: int)
    requires
        0 <= a <= b,
    ensures
        sqrt_floor(a) <= sqrt_floor(b),
{
    lemma_sqrt_floor_exists(a);
    lemma_sqrt_floor_exists(b);
    let ra = sqrt_floor(a);
    let rb = sqrt_floor(b);
    if rb < ra {
        assert((rb + 1) * (rb + 1) <= ra * ra) by (nonlinear_arith)
            requires
                0 <= rb + 1 <= ra,
        ;
    }
}

/// A product of values bounded in magnitude is bounded by the product of the bounds.
pub proof fn lemma_mul_bounds(a: int, b: int, am: int, bm: int)
    by (nonlinear_arith)
    requires
        -am <= a <= am,
        -bm <= b <= bm,
        0 <= am,
        0 <= bm,
    ensures
        -(am * bm) <= a * b <= am * bm,
{
}

/// A product of non-negative bounded values is non-negative and bounded.
pub proof fn lemma_mul_le_nonneg(a: int, b: int, am: int, bm: int)
    by (nonlinear_arith)
    requires
        0 <= a <= am,
        0 <= b <= bm,
    ensures
        0 <= a * b <= am * bm,
{
}

/// Multiplying two ordered non-negative values keeps the order.
pub proof fn lemma_mul_mono_nonneg(a1: int, a2: int, b1: int, b2: int)
    by (nonlinear_arith)
    requires
        0 <= a1 <= a2,
        0 <= b1 <= b2,
    ensures
        a1 * b1 <= a2 * b2,
{
}

/// Magnitude of a product with a signed unit factor: `|m * (k * s)| == |m| * k`.
pub proof fn lemma_abs_mul_unit(m: int, s: int, k: int)
    requires
        s == 1 || s == -1,
        0 <= k,
    ensures
        vstd::math::abs(m * (k * s)) == vstd::math::abs(m) * k,
{
    let ks = k * s;
    if s == 1 {
        assert(ks == k) by (nonlinear_arith)
            requires
                ks == k * s,
                s == 1,
        ;
        if m >= 0 {
            lemma_mul_le_nonneg(m, k, m, k);
            assert(vstd::math::abs(m * ks) == m * k);
        } else {
            assert(m * k <= 0 && -(m * k) == (-m) * k) by (nonlinear_arith)
                requires
                    m < 0,
                    k >= 0,
            ;
        }
    } else {
        assert(ks == -k) by (nonlinear_arith)
            requires
                ks == k * s,
                s == -1,
        ;
        assert(m * ks == -(m * k)) by (nonlinear_arith)
            requires
                ks == -k,
        ;
        if m >= 0 {
            lemma_mul_le_nonneg(m, k, m, k);
            assert(vstd::math::abs(m * ks) == m * k);
        } else {
            assert(m * k <= 0 && -(m * k) == (-m) * k) by (nonlinear_arith)
                requires
                    m < 0,
                    k >= 0,
            ;
        }
    }
}

/// Integer square root: the floor of the real square root of `n`.
pub fn isqrt(n: u128) -> (r: u64)
    ensures
        r == sqrt_floor(n as int),
        (r as int) * (r as int) <= n as int,
        (n as int) < (r as int + 1) * (r as int + 1),
{
    let mut lo: u64 = 0;
    let mut hi: u64 = u64::MAX;
    proof {
        assert((hi as int + 1) * (hi as int + 1) > u128::MAX as int);
    }
    while lo < hi
        invariant
            lo <= hi,
            (lo as int) * (lo as int) <= n as int,
            (n as int) < (hi as int + 1) * (hi as int + 1),
        decreases hi - lo,
    {
        let mid: u64 = hi - (hi - lo) / 2;
        assert(lo < mid <= hi);
        proof {
            lemma_mul_le_nonneg(mid as int, mid as int, u64::MAX as int, u64::MAX as int);
        }
        let sq: u128 = (mid as u128) * (mid as u128);
        if sq <= n {
            lo = mid;
        } else {
            hi = mid - 1;
        }
    }
    proof {
        assert(is_sqrt(n as int, lo as int));
        lemma_sqrt_unique(n as int, lo as int);
    }
    lo
}

} // verus!
