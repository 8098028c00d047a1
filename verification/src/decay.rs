//! The decay engine: exponential half-life decay in WAD fixed point,
//! approximated by a lookup table for integer powers of one half and linear
//! interpolation for the fractional part, plus the derived activity factor
//! and the reward formula built on it.

use vstd::prelude::*;
use vstd::arithmetic::div_mod::{
    lemma_basic_div, lemma_div_is_ordered, lemma_div_multiples_vanish, lemma_mod_bound,
};
use vstd::arithmetic::mul::{lemma_mul_inequality, lemma_mul_is_commutative};

use crate::errors::OracleError;

verus! {

/// Fixed-point scale: a decay factor is a fraction of `WAD`.
pub const WAD: u128 = 1_000_000_000_000_000_000;

/// Scale of the fractional part of `elapsed / half_life`, and of the reward
/// rate expressed in basis points of the held balance.
pub const DENOMINATOR: u64 = 100_000;

/// `2^-k` scaled by `WAD` and rounded to the nearest integer for
/// `k = 0..=60`; `0` past the end of the table. The exact table values
/// define the aggregate and reward numbers, so they are fixed here rather
/// than recomputed.
pub open spec fn pow2_neg(k: int) -> u128 {
    if k == 0 { 1_000_000_000_000_000_000 }
    else if k == 1 { 500_000_000_000_000_000 }
    else if k == 2 { 250_000_000_000_000_000 }
    else if k == 3 { 125_000_000_000_000_000 }
    else if k == 4 { 62_500_000_000_000_000 }
    else if k == 5 { 31_250_000_000_000_000 }
    else if k == 6 { 15_625_000_000_000_000 }
    else if k == 7 { 7_812_500_000_000_000 }
    else if k == 8 { 3_906_250_000_000_000 }
    else if k == 9 { 1_953_125_000_000_000 }
    else if k == 10 { 976_562_500_000_000 }
    else if k == 11 { 488_281_250_000_000 }
    else if k == 12 { 244_140_625_000_000 }
    else if k == 13 { 122_070_312_500_000 }
    else if k == 14 { 61_035_156_250_000 }
    else if k == 15 { 30_517_578_125_000 }
    else if k == 16 { 15_258_789_062_500 }
    else if k == 17 { 7_629_394_531_250 }
    else if k == 18 { 3_814_697_265_625 }
    else if k == 19 { 1_907_348_632_812 }
    else if k == 20 { 953_674_316_406 }
    else if k == 21 { 476_837_158_203 }
    else if k == 22 { 238_418_579_102 }
    else if k == 23 { 119_209_289_551 }
    else if k == 24 { 59_604_644_775 }
    else if k == 25 { 29_802_322_388 }
    else if k == 26 { 14_901_161_194 }
    else if k == 27 { 7_450_580_597 }
    else if k == 28 { 3_725_290_298 }
    else if k == 29 { 1_862_645_149 }
    else if k == 30 { 931_322_574 }
    else if k == 31 { 465_661_287 }
    else if k == 32 { 232_830_643 }
    else if k == 33 { 116_415_322 }
    else if k == 34 { 58_207_661 }
    else if k == 35 { 29_103_831 }
    else if k == 36 { 14_551_915 }
    else if k == 37 { 7_275_958 }
    else if k == 38 { 3_637_979 }
    else if k == 39 { 1_818_989 }
    else if k == 40 { 909_495 }
    else if k == 41 { 454_747 }
    else if k == 42 { 227_373 }
    else if k == 43 { 113_687 }
    else if k == 44 { 56_843 }
    else if k == 45 { 28_422 }
    else if k == 46 { 14_211 }
    else if k == 47 { 7_105 }
    else if k == 48 { 3_553 }
    else if k == 49 { 1_776 }
    else if k == 50 { 888 }
    else if k == 51 { 444 }
    else if k == 52 { 222 }
    else if k == 53 { 111 }
    else if k == 54 { 56 }
    else if k == 55 { 28 }
    else if k == 56 { 14 }
    else if k == 57 { 7 }
    else if k == 58 { 3 }
    else if k == 59 { 2 }
    else if k == 60 { 1 }
    else { 0 }
}

/// Looks up `2^-k` in WAD fixed point.
pub fn process_pow2_neg_int(k: u64) -> (r: u128)
    ensures
        r == pow2_neg(k as int),
{
    match k {
        0 => 1_000_000_000_000_000_000,
        1 => 500_000_000_000_000_000,
        2 => 250_000_000_000_000_000,
        3 => 125_000_000_000_000_000,
        4 => 62_500_000_000_000_000,
        5 => 31_250_000_000_000_000,
        6 => 15_625_000_000_000_000,
        7 => 7_812_500_000_000_000,
        8 => 3_906_250_000_000_000,
        9 => 1_953_125_000_000_000,
        10 => 976_562_500_000_000,
        11 => 488_281_250_000_000,
        12 => 244_140_625_000_000,
        13 => 122_070_312_500_000,
        14 => 61_035_156_250_000,
        15 => 30_517_578_125_000,
        16 => 15_258_789_062_500,
        17 => 7_629_394_531_250,
        18 => 3_814_697_265_625,
        19 => 1_907_348_632_812,
        20 => 953_674_316_406,
        21 => 476_837_158_203,
        22 => 238_418_579_102,
        23 => 119_209_289_551,
        24 => 59_604_644_775,
        25 => 29_802_322_388,
        26 => 14_901_161_194,
        27 => 7_450_580_597,
        28 => 3_725_290_298,
        29 => 1_862_645_149,
        30 => 931_322_574,
        31 => 465_661_287,
        32 => 232_830_643,
        33 => 116_415_322,
        34 => 58_207_661,
        35 => 29_103_831,
        36 => 14_551_915,
        37 => 7_275_958,
        38 => 3_637_979,
        39 => 1_818_989,
        40 => 909_495,
        41 => 454_747,
        42 => 227_373,
        43 => 113_687,
        44 => 56_843,
        45 => 28_422,
        46 => 14_211,
        47 => 7_105,
        48 => 3_553,
        49 => 1_776,
        50 => 888,
        51 => 444,
        52 => 222,
        53 => 111,
        54 => 56,
        55 => 28,
        56 => 14,
        57 => 7,
        58 => 3,
        59 => 2,
        60 => 1,
        _ => 0,
    }
}

/// The table never increases: a larger exponent gives a smaller entry.
pub proof fn lemma_pow2_neg_antitone(i: int, j: int)
    requires
        0 <= i <= j,
    ensures
        pow2_neg(i) >= pow2_neg(j),
    decreases j - i,
{
    if i < j {
        lemma_pow2_neg_antitone(i, j - 1);
        assert(pow2_neg(j - 1) >= pow2_neg(j));
    }
}

/// Inside the table every entry is at least one: decay saturates to the
/// smallest representable nonzero fraction, never to zero.
pub proof fn lemma_pow2_neg_at_least_one(k: int)
    requires
        0 <= k <= 60,
    ensures
        1 <= pow2_neg(k) <= WAD,
{
    lemma_pow2_neg_antitone(0, k);
}

/// The decay factor as a function of `scaled`, the elapsed time divided by
/// the half life and scaled by `DENOMINATOR`: table lookup on the integer
/// part and linear interpolation on the remainder, saturating to `1` past
/// the end of the table.
pub open spec fn decay_from_scaled(scaled: int) -> int {
    if scaled >= 61 * (DENOMINATOR as int) {
        1
    } else {
        let k: int = scaled / (DENOMINATOR as int);
        let frac: int = scaled % (DENOMINATOR as int);
        if frac == 0 {
            pow2_neg(k) as int
        } else {
            let hi: int = pow2_neg(k) as int;
            let lo: int = if k < 60 { pow2_neg(k + 1) as int } else { 0 };
            hi - (hi - lo) * frac / (DENOMINATOR as int)
        }
    }
}

/// `2^(-elapsed/half_life)` in WAD fixed point. No elapsed time, or a zero
/// half life, means no decay.
pub open spec fn spec_decay_factor(elapsed: u64, half_life_seconds: u64) -> int {
    if elapsed == 0 || half_life_seconds == 0 {
        WAD as int
    } else {
        decay_from_scaled(elapsed * DENOMINATOR / (half_life_seconds as int))
    }
}

proof fn lemma_interp_le_gap(hi: int, lo: int, frac: int)
    requires
        0 <= lo <= hi,
        0 <= frac < DENOMINATOR,
    ensures
        0 <= (hi - lo) * frac / (DENOMINATOR as int) <= hi - lo,
{
    let d: int = DENOMINATOR as int;
    lemma_mul_inequality(frac, d, hi - lo);
    lemma_mul_is_commutative(hi - lo, frac);
    lemma_mul_is_commutative(hi - lo, d);
    lemma_div_is_ordered((hi - lo) * frac, (hi - lo) * d, d);
    lemma_div_multiples_vanish(hi - lo, d);
    if (hi - lo) * frac > 0 {
        lemma_div_is_ordered(0, (hi - lo) * frac, d);
    } else {
        assert((hi - lo) * frac == 0 || frac == 0) by (nonlinear_arith)
            requires 0 <= hi - lo && 0 <= frac && (hi - lo) * frac <= 0;
    }
}

/// Every decay factor lies between `1` and `WAD`.
pub proof fn lemma_decay_from_scaled_bounds(scaled: int)
    requires
        scaled >= 0,
    ensures
        1 <= decay_from_scaled(scaled) <= WAD,
{
    let d: int = DENOMINATOR as int;
    if scaled < 61 * d {
        lemma_div_is_ordered(scaled, 61 * d - 1, d);
        assert((61 * d - 1) / d == 60) by {
            vstd::arithmetic::div_mod::lemma_fundamental_div_mod_converse_div(
                61 * d - 1, d, 60, d - 1,
            );
        }
        lemma_div_is_ordered(0, scaled, d);
        let k: int = scaled / d;
        lemma_mod_bound(scaled, d);
        let frac: int = scaled % d;
        lemma_pow2_neg_at_least_one(k);
        if frac != 0 {
            let hi: int = pow2_neg(k) as int;
            if k < 60 {
                let lo: int = pow2_neg(k + 1) as int;
                lemma_pow2_neg_antitone(k, k + 1);
                lemma_pow2_neg_at_least_one(k + 1);
                lemma_interp_le_gap(hi, lo, frac);
            } else {
                lemma_basic_div(frac, d);
                assert((hi - 0) * frac == frac) by (nonlinear_arith)
                    requires hi == 1;
            }
        }
    }
}

/// The interpolated curve never increases as `scaled` grows.
pub proof fn lemma_decay_from_scaled_antitone(s1: int, s2: int)
    requires
        0 <= s1 <= s2,
    ensures
        decay_from_scaled(s2) <= decay_from_scaled(s1),
{
    let d: int = DENOMINATOR as int;
    lemma_decay_from_scaled_bounds(s1);
    lemma_decay_from_scaled_bounds(s2);
    if s1 < 61 * d && s2 < 61 * d {
        lemma_div_is_ordered(s1, s2, d);
        lemma_div_is_ordered(0, s1, d);
        lemma_div_is_ordered(s1, 61 * d - 1, d);
        lemma_div_is_ordered(s2, 61 * d - 1, d);
        assert((61 * d - 1) / d == 60) by {
            vstd::arithmetic::div_mod::lemma_fundamental_div_mod_converse_div(
                61 * d - 1, d, 60, d - 1,
            );
        }
        let k1: int = s1 / d;
        let k2: int = s2 / d;
        lemma_mod_bound(s1, d);
        lemma_mod_bound(s2, d);
        let f1: int = s1 % d;
        let f2: int = s2 % d;
        let hi1: int = pow2_neg(k1) as int;
        let lo1: int = if k1 < 60 { pow2_neg(k1 + 1) as int } else { 0 };
        let hi2: int = pow2_neg(k2) as int;
        let lo2: int = if k2 < 60 { pow2_neg(k2 + 1) as int } else { 0 };
        lemma_pow2_neg_antitone(k1, k2);
        if k1 < 60 {
            lemma_pow2_neg_antitone(k1, k1 + 1);
        }
        if k2 < 60 {
            lemma_pow2_neg_antitone(k2, k2 + 1);
        }
        lemma_interp_le_gap(hi1, lo1, f1);
        lemma_interp_le_gap(hi2, lo2, f2);
        if k1 == k2 {
            // Same table cell: a larger remainder subtracts at least as much.
            if f1 <= f2 {
                lemma_mul_inequality(f1, f2, hi1 - lo1);
                lemma_mul_is_commutative(hi1 - lo1, f1);
                lemma_mul_is_commutative(hi1 - lo1, f2);
                lemma_div_is_ordered((hi1 - lo1) * f1, (hi1 - lo1) * f2, d);
            } else {
                // With s1 <= s2 and equal quotients the remainders are ordered.
                vstd::arithmetic::div_mod::lemma_fundamental_div_mod(s1, d);
                vstd::arithmetic::div_mod::lemma_fundamental_div_mod(s2, d);
                assert(false);
            }
        } else {
            // Different cells: the left value is at least the floor of its
            // cell, which the right cell's ceiling cannot exceed.
            if k1 < 60 {
                lemma_pow2_neg_antitone(k1 + 1, k2);
            } else {
                vstd::arithmetic::div_mod::lemma_fundamental_div_mod(s2, d);
                lemma_mul_inequality(61, k2, d);
                lemma_mul_is_commutative(k2, d);
                assert(false);
            }
        }
    }
}

/// The decay factor at no elapsed time is exactly `WAD`: no decay.
pub proof fn lemma_decay_factor_at_zero(half_life_seconds: u64)
    ensures
        spec_decay_factor(0, half_life_seconds) == WAD,
{
}

/// For a fixed half life, the decay factor never increases as elapsed time
/// grows.
pub proof fn lemma_decay_factor_monotonic(e1: u64, e2: u64, half_life_seconds: u64)
    requires
        e1 <= e2,
    ensures
        spec_decay_factor(e2, half_life_seconds) <= spec_decay_factor(e1, half_life_seconds),
{
    let h: u64 = half_life_seconds;
    if h == 0 || e2 == 0 {
        // Both sides are WAD.
    } else if e1 == 0 {
        lemma_decay_factor_bounds(e2, h);
    } else {
        let d: int = DENOMINATOR as int;
        lemma_mul_inequality(e1 as int, e2 as int, d);
        lemma_mul_is_commutative(e1 as int, d);
        lemma_mul_is_commutative(e2 as int, d);
        lemma_div_is_ordered(e1 * DENOMINATOR, e2 * DENOMINATOR, h as int);
        lemma_div_is_ordered(0, e1 * DENOMINATOR, h as int);
        lemma_decay_from_scaled_antitone(
            e1 * DENOMINATOR / (h as int),
            e2 * DENOMINATOR / (h as int),
        );
    }
}

/// Every decay factor lies between `1` and `WAD`.
pub proof fn lemma_decay_factor_bounds(elapsed: u64, half_life_seconds: u64)
    ensures
        1 <= spec_decay_factor(elapsed, half_life_seconds) <= WAD,
{
    if elapsed != 0 && half_life_seconds != 0 {
        let d: int = DENOMINATOR as int;
        lemma_mul_inequality(0, elapsed as int, d);
        lemma_mul_is_commutative(elapsed as int, d);
        lemma_div_is_ordered(0, elapsed * DENOMINATOR, half_life_seconds as int);
        lemma_decay_from_scaled_bounds(elapsed * DENOMINATOR / (half_life_seconds as int));
    }
}

/// Computes the decay factor for `elapsed` seconds under the given half
/// life, in WAD fixed point.
pub fn decay_factor(elapsed: u64, half_life_seconds: u64) -> (r: u128)
    ensures
        r == spec_decay_factor(elapsed, half_life_seconds),
        1 <= r <= WAD,
{
    proof {
        lemma_decay_factor_bounds(elapsed, half_life_seconds);
    }
    if elapsed == 0 || half_life_seconds == 0 {
        return WAD;
    }

    proof {
        lemma_mul_inequality(elapsed as int, u64::MAX as int, DENOMINATOR as int);
        lemma_mul_is_commutative(elapsed as int, DENOMINATOR as int);
        lemma_mul_is_commutative(u64::MAX as int, DENOMINATOR as int);
    }
    let scaled: u128 = (elapsed as u128) * (DENOMINATOR as u128) / (half_life_seconds as u128);
    if scaled >= 61 * (DENOMINATOR as u128) {
        return 1;
    }

    proof {
        let d: int = DENOMINATOR as int;
        lemma_div_is_ordered(scaled as int, 61 * d - 1, d);
        assert((61 * d - 1) / d == 60) by {
            vstd::arithmetic::div_mod::lemma_fundamental_div_mod_converse_div(
                61 * d - 1, d, 60, d - 1,
            );
        }
        lemma_div_is_ordered(0, scaled as int, d);
        lemma_mod_bound(scaled as int, d);
    }
    let k: u64 = (scaled / (DENOMINATOR as u128)) as u64;
    let frac: u128 = scaled % (DENOMINATOR as u128);

    if frac == 0 {
        return process_pow2_neg_int(k);
    }
    let hi: u128 = process_pow2_neg_int(k);
    let lo: u128 = if k < 60 {
        process_pow2_neg_int(k + 1)
    } else {
        0
    };
    proof {
        lemma_pow2_neg_at_least_one(k as int);
        if k < 60 {
            lemma_pow2_neg_antitone(k as int, k as int + 1);
        }
        lemma_interp_le_gap(hi as int, lo as int, frac as int);
        lemma_mul_inequality(hi as int - lo as int, WAD as int, frac as int);
        lemma_mul_is_commutative(hi as int - lo as int, frac as int);
        lemma_mul_is_commutative(WAD as int, frac as int);
    }
    hi - (hi - lo) * frac / (DENOMINATOR as u128)
}

/// Whether `value * factor` stays inside `u128` on the one path of
/// `apply_decay` that multiplies.
pub open spec fn spec_apply_decay_ok(value: u128, elapsed: u64, half_life_seconds: u64) -> bool {
    value == 0 || half_life_seconds == 0 || elapsed == 0
        || value * spec_decay_factor(elapsed, half_life_seconds) <= u128::MAX
}

/// The decayed value: `value * factor / WAD`, with the degenerate cases
/// returned unchanged.
pub open spec fn spec_apply_decay(value: u128, elapsed: u64, half_life_seconds: u64) -> int {
    if value == 0 {
        0
    } else if half_life_seconds == 0 || elapsed == 0 {
        value as int
    } else {
        value * spec_decay_factor(elapsed, half_life_seconds) / (WAD as int)
    }
}

/// Scales `value` by the decay factor for `elapsed` seconds. Fails only
/// when the widened product exceeds `u128`. The result never exceeds the
/// input: decay only shrinks.
pub fn apply_decay(value: u128, elapsed: u64, half_life_seconds: u64) -> (r: Result<
    u128,
    OracleError,
>)
    ensures
        r is Ok <==> spec_apply_decay_ok(value, elapsed, half_life_seconds),
        r is Ok ==> r->Ok_0 == spec_apply_decay(value, elapsed, half_life_seconds),
        r is Ok ==> r->Ok_0 <= value,
        r is Err ==> r->Err_0 == OracleError::MathOverflow,
{
    if value == 0 {
        return Ok(0);
    }
    if half_life_seconds == 0 || elapsed == 0 {
        return Ok(value);
    }
    let factor: u128 = decay_factor(elapsed, half_life_seconds);
    let scaled: u128 = match value.checked_mul(factor) {
        Some(p) => p,
        None => { return Err(OracleError::MathOverflow) },
    };
    proof {
        lemma_mul_inequality(factor as int, WAD as int, value as int);
        lemma_mul_is_commutative(value as int, factor as int);
        lemma_mul_is_commutative(value as int, WAD as int);
        lemma_div_is_ordered(value * factor, value * WAD, WAD as int);
        lemma_div_multiples_vanish(value as int, WAD as int);
        lemma_mul_is_commutative(WAD as int, value as int);
        lemma_div_is_ordered(0, value * factor, WAD as int);
    }
    let decayed: u128 = match scaled.checked_div(WAD) {
        Some(d) => d,
        None => { return Err(OracleError::MathUnderflow) },
    };
    Ok(decayed)
}

/// How much of a participant's influence has gone stale: `WAD` minus the
/// decay factor, clamped to zero. Zero elapsed time yields zero activity.
pub open spec fn spec_activity_factor(elapsed: u64, half_life_seconds: u64) -> int {
    if spec_decay_factor(elapsed, half_life_seconds) >= WAD {
        0
    } else {
        WAD - spec_decay_factor(elapsed, half_life_seconds)
    }
}

fn activity_factor(elapsed: u64, half_life_seconds: u64) -> (r: u128)
    ensures
        r == spec_activity_factor(elapsed, half_life_seconds),
        r < WAD,
{
    let decay: u128 = decay_factor(elapsed, half_life_seconds);
    if decay >= WAD {
        0
    } else {
        WAD - decay
    }
}

/// The share of the pool owed for one submission:
/// `alpha * pool * (weight * activity / WAD) / total_weight`, zero whenever
/// the pool, the weight, the total weight or the activity is zero.
pub open spec fn spec_reward(
    reward_pool: u128,
    weight: u64,
    elapsed: u64,
    total_weight: u128,
    alpha: u64,
    half_life_seconds: u64,
) -> int {
    if reward_pool == 0 || weight == 0 || total_weight == 0 {
        0
    } else if spec_activity_factor(elapsed, half_life_seconds) == 0 {
        0
    } else {
        let num: int = weight * spec_activity_factor(elapsed, half_life_seconds) / (WAD as int);
        alpha * reward_pool * num / (total_weight as int)
    }
}

/// Whether every widening step of the reward formula stays in range.
pub open spec fn spec_reward_ok(
    reward_pool: u128,
    weight: u64,
    elapsed: u64,
    total_weight: u128,
    alpha: u64,
    half_life_seconds: u64,
) -> bool {
    if reward_pool == 0 || weight == 0 || total_weight == 0 {
        true
    } else if spec_activity_factor(elapsed, half_life_seconds) == 0 {
        true
    } else {
        let num: int = weight * spec_activity_factor(elapsed, half_life_seconds) / (WAD as int);
        alpha * reward_pool <= u128::MAX && alpha * reward_pool * num <= u128::MAX
            && alpha * reward_pool * num / (total_weight as int) <= u64::MAX
    }
}

/// Computes the reward paid for one submission. No elapsed time since the
/// submitter's previous observation means no activity and so no reward.
pub fn calculate_reward(
    reward_pool: u128,
    weight: u64,
    elapsed: u64,
    total_weight: u128,
    alpha: u64,
    half_life_seconds: u64,
) -> (r: Result<u64, OracleError>)
    ensures
        r is Ok <==> spec_reward_ok(
            reward_pool,
            weight,
            elapsed,
            total_weight,
            alpha,
            half_life_seconds,
        ),
        r is Ok ==> r->Ok_0 == spec_reward(
            reward_pool,
            weight,
            elapsed,
            total_weight,
            alpha,
            half_life_seconds,
        ),
        r is Err ==> r->Err_0 == OracleError::MathOverflow,
        elapsed == 0 ==> r == Ok::<u64, OracleError>(0),
{
    if reward_pool == 0 || weight == 0 || total_weight == 0 {
        return Ok(0);
    }
    let activity: u128 = activity_factor(elapsed, half_life_seconds);
    if activity == 0 {
        return Ok(0);
    }
    proof {
        lemma_mul_inequality(weight as int, u64::MAX as int, activity as int);
        lemma_mul_is_commutative(weight as int, activity as int);
        lemma_mul_is_commutative(u64::MAX as int, activity as int);
        lemma_mul_inequality(activity as int, WAD as int, u64::MAX as int);
        lemma_mul_is_commutative(u64::MAX as int, WAD as int);
        lemma_div_is_ordered(0, weight as int * activity as int, WAD as int);
    }
    let num: u128 = match (weight as u128).checked_mul(activity) {
        Some(p) => p,
        None => { return Err(OracleError::MathOverflow) },
    };
    let num: u128 = match num.checked_div(WAD) {
        Some(d) => d,
        None => { return Err(OracleError::MathUnderflow) },
    };

    let scaled_pool: u128 = match (alpha as u128).checked_mul(reward_pool) {
        Some(p) => p,
        None => { return Err(OracleError::MathOverflow) },
    };
    let wide: u128 = match scaled_pool.checked_mul(num) {
        Some(p) => p,
        None => { return Err(OracleError::MathOverflow) },
    };
    proof {
        lemma_div_is_ordered(0, wide as int, total_weight as int);
    }
    let reward: u128 = match wide.checked_div(total_weight) {
        Some(d) => d,
        None => { return Err(OracleError::MathUnderflow) },
    };
    if reward > u64::MAX as u128 {
        return Err(OracleError::MathOverflow);
    }
    Ok(reward as u64)
}

} // verus!
