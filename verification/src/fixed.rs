//! Fixed-point scales, range caps and small verified numeric helpers.

use vstd::prelude::*;

verus! {

/// One whole unit in fixed-point: prices, money amounts, fractions and
/// percentages are all stored as multiples of `1 / SCALE`.
pub const SCALE: i64 = 10_000;

/// Largest money amount (equity, cost, profit or loss) the engine represents.
/// Anything beyond it is a numeric anomaly, recovered from and counted.
pub const MONEY_MAX: i64 = 1_000_000_000_000_000_000;

/// Largest raw or adjusted price accepted for a fill, in `1 / SCALE` units.
pub const PRICE_CAP: i64 = 100_000_000_000_000;

/// Largest position size, in whole instrument units.
pub const SIZE_CAP: u64 = 1_000_000_000_000;

/// Largest dimensionless model factor (a rate, a multiplier of the cost
/// model), in `1 / SCALE` units.
pub const RATE_CAP: i64 = 100_000_000;

/// Largest instrument multiplier, in hundredths (`10_000` is a multiplier
/// of one hundred).
pub const MULT_CAP: u64 = 100_000_000;

/// One hundred percent in fixed-point percentage units.
pub const PCT_100: i64 = 1_000_000;

/// Is `x` a representable money amount?
pub open spec fn in_money(x: int) -> bool {
    -MONEY_MAX <= x <= MONEY_MAX
}

/// A nonnegative amount if representable, `None` on a numeric anomaly.
pub open spec fn money_opt(x: int) -> Option<i64> {
    if 0 <= x <= MONEY_MAX {
        Some(x as i64)
    } else {
        None
    }
}

/// Clamp an arbitrary integer into the representable money range.
pub open spec fn clamp_money(x: int) -> i64 {
    if x > MONEY_MAX {
        MONEY_MAX
    } else if x < -MONEY_MAX {
        (-MONEY_MAX) as i64
    } else {
        x as i64
    }
}

/// Signed division rounding toward zero, the rounding the fixed-point
/// conversions perform.
pub open spec fn div_tz(a: int, d: int) -> int
    recommends
        d > 0,
{
    if a >= 0 {
        a / d
    } else {
        -((-a) / d)
    }
}

/// The integer square root: the unique `r` with `r * r <= x < (r+1) * (r+1)`.
pub open spec fn spec_isqrt(x: nat) -> nat {
    choose|r: nat| #[trigger] (r * r) <= x && x < (r + 1) * (r + 1)
}

/// The product of two bounded factors is bounded by the product of the
/// bounds.
pub proof fn lemma_mul_abs_bound(a: int, b: int, aa: int, bb: int)
    requires
        -aa <= a <= aa,
        -bb <= b <= bb,
        0 <= aa,
        0 <= bb,
    ensures
        -(aa * bb) <= a * b <= aa * bb,
{
    assert(-(aa * bb) <= a * b <= aa * bb) by (nonlinear_arith)
        requires
            -aa <= a <= aa,
            -bb <= b <= bb,
            0 <= aa,
            0 <= bb,
    ;
}

/// Squaring is monotone over the naturals.
proof fn lemma_square_monotone(a: nat, b: nat)
    requires
        a <= b,
    ensures
        a * a <= b * b,
{
    assert(a * a <= b * b) by (nonlinear_arith)
        requires
            a <= b,
    ;
}

/// Any `r` inside the square-root window is the integer square root.
pub proof fn lemma_isqrt_agrees(x: nat, r: nat)
    requires
        r * r <= x,
        x < (r + 1) * (r + 1),
    ensures
        spec_isqrt(x) == r,
{
    let w = choose|w: nat| #[trigger] (w * w) <= x && x < (w + 1) * (w + 1);
    assert(w * w <= x && x < (w + 1) * (w + 1));
    if w < r {
        lemma_square_monotone(w + 1, r);
        assert(false);
    }
    if r < w {
        lemma_square_monotone(r + 1, w);
        assert(false);
    }
}

/// Binary-search integer square root over a bounded range.
pub fn isqrt(x: u128) -> (r: u64)
    requires
        x <= 10_000_000_000_000_000_000_000_000_000u128,
    ensures
        r * r <= x,
        x < (r + 1) * (r + 1),
        r == spec_isqrt(x as nat),
        r <= 100_000_000_000_000u64,
{
    let mut lo: u64 = 0;
    let mut hi: u64 = 100_000_000_000_000;
    assert((hi + 1) * (hi + 1) > x) by (nonlinear_arith)
        requires
            hi == 100_000_000_000_000u64,
            x <= 10_000_000_000_000_000_000_000_000_000u128,
    ;
    while lo < hi
        invariant
            lo <= hi <= 100_000_000_000_000u64,
            lo * lo <= x,
            x < (hi + 1) * (hi + 1),
        decreases hi - lo,
    {
        let mid: u64 = lo + (hi - lo + 1) / 2;
        assert(mid * mid <= 100_000_000_000_000u64 * 100_000_000_000_000u64) by (nonlinear_arith)
            requires
                mid <= 100_000_000_000_000u64,
        ;
        let sq: u128 = (mid as u128) * (mid as u128);
        if sq <= x {
            lo = mid;
        } else {
            hi = mid - 1;
        }
    }
    proof {
        lemma_isqrt_agrees(x as nat, lo as nat);
    }
    lo
}

} // verus!
