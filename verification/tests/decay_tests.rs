use oracle::decay::{
    apply_decay, calculate_reward, decay_factor, process_pow2_neg_int, DENOMINATOR, WAD,
};
use oracle::errors::OracleError;

#[test]
fn decay_factor_without_elapsed_time_is_wad() {
    assert_eq!(decay_factor(0, 3600), WAD);
    assert_eq!(decay_factor(0, 0), WAD);
    assert_eq!(decay_factor(12345, 0), WAD);
}

#[test]
fn decay_factor_after_one_half_life_is_half_wad() {
    assert_eq!(decay_factor(3600, 3600), 500_000_000_000_000_000);
    assert_eq!(decay_factor(7200, 3600), 250_000_000_000_000_000);
}

#[test]
fn decay_factor_interpolates_between_table_entries() {
    // half a half-life: frac = 50000, between WAD and WAD/2
    assert_eq!(decay_factor(1800, 3600), 750_000_000_000_000_000);
    // one and a half half-lives: between WAD/2 and WAD/4
    assert_eq!(decay_factor(5400, 3600), 375_000_000_000_000_000);
}

#[test]
fn decay_factor_saturates_to_one_past_the_table() {
    assert_eq!(decay_factor(61 * 3600, 3600), 1);
    assert_eq!(decay_factor(u64::MAX, 1), 1);
    // just inside the last table cell the interpolation still floors at one
    assert_eq!(decay_factor(61 * 3600 - 1, 3600), 1);
}

#[test]
fn decay_factor_is_monotone_on_samples() {
    let mut prev: u128 = decay_factor(0, 3600);
    let mut e: u64 = 0;
    while e < 3600 * 70 {
        let f = decay_factor(e, 3600);
        assert!(f <= prev);
        assert!(f >= 1);
        prev = f;
        e += 600;
    }
}

#[test]
fn pow2_table_spot_values() {
    assert_eq!(process_pow2_neg_int(0), WAD);
    assert_eq!(process_pow2_neg_int(10), 976_562_500_000_000);
    assert_eq!(process_pow2_neg_int(60), 1);
    assert_eq!(process_pow2_neg_int(61), 0);
}

#[test]
fn apply_decay_degenerate_cases() {
    assert_eq!(apply_decay(0, 999, 3600), Ok(0));
    assert_eq!(apply_decay(1234, 0, 3600), Ok(1234));
    assert_eq!(apply_decay(1234, 999, 0), Ok(1234));
}

#[test]
fn apply_decay_halves_after_one_half_life() {
    assert_eq!(apply_decay(1000, 3600, 3600), Ok(500));
    assert_eq!(apply_decay(1000, 7200, 3600), Ok(250));
}

#[test]
fn apply_decay_reports_overflow() {
    // elapsed far below one half-life: the factor is WAD and the product
    // u128::MAX * WAD cannot be represented
    assert_eq!(apply_decay(u128::MAX, 1, u64::MAX), Err(OracleError::MathOverflow));
}

#[test]
fn reward_is_zero_without_elapsed_time() {
    // no elapsed time since the user's last submission: no activity, no
    // reward, whatever the pool, weight or total weight
    assert_eq!(calculate_reward(1_000_000_000_000, 1000, 0, 1_000_000, 5, 3600), Ok(0));
    assert_eq!(calculate_reward(u128::MAX / 2, u64::MAX, 0, 1, u64::MAX, 1), Ok(0));
}

#[test]
fn reward_is_zero_on_empty_inputs() {
    assert_eq!(calculate_reward(0, 1000, 3600, 1000, 5, 3600), Ok(0));
    assert_eq!(calculate_reward(1000, 0, 3600, 1000, 5, 3600), Ok(0));
    assert_eq!(calculate_reward(1000, 1000, 3600, 0, 5, 3600), Ok(0));
    // a zero half-life means no decay, so no activity either
    assert_eq!(calculate_reward(1000, 1000, 3600, 1000, 5, 0), Ok(0));
}

#[test]
fn reward_exact_value_after_one_half_life() {
    // activity = WAD/2; num = 1000 * (WAD/2) / WAD = 500
    // reward = 2 * 1_000_000 * 500 / 1000 = 1_000_000
    assert_eq!(calculate_reward(1_000_000, 1000, 3600, 1000, 2, 3600), Ok(1_000_000));
}

#[test]
fn reward_reports_overflow() {
    let r = calculate_reward(u128::MAX / 1000, 1000, 3600, 1000, u64::MAX, 3600);
    assert_eq!(r, Err(OracleError::MathOverflow));
}

#[test]
fn denominator_matches_reward_scale() {
    assert_eq!(DENOMINATOR, 100_000);
}
