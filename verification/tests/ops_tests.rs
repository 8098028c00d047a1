use oracle::errors::OracleError;
use oracle::ops::{deposit_tokens, fund, initialize, submit_value, withdraw_tokens};
use oracle::state::{InitializeOracleParams, OracleState, UserState};

fn params(
    reward_bps: u64,
    half_life_seconds: u64,
    quorum: u64,
    deposit_locking_period: u64,
    withdrawal_locking_period: u64,
    alpha: u64,
) -> InitializeOracleParams {
    InitializeOracleParams {
        name: b"rates".to_vec(),
        description: b"time-decayed rate oracle".to_vec(),
        reward_bps,
        half_life_seconds,
        quorum,
        deposit_locking_period,
        withdrawal_locking_period,
        alpha,
    }
}

fn fresh_oracle(
    reward_bps: u64,
    half_life: u64,
    quorum: u64,
    deposit_lock: u64,
    withdraw_lock: u64,
    alpha: u64,
    now: i64,
) -> OracleState {
    initialize(params(reward_bps, half_life, quorum, deposit_lock, withdraw_lock, alpha), 1, 2, now)
        .unwrap()
}

#[test]
fn initialize_validates_parameters() {
    let mut p = params(0, 3600, 0, 0, 0, 1);
    p.name = Vec::new();
    assert_eq!(initialize(p, 1, 2, 0).err(), Some(OracleError::InvalidName));

    let mut p = params(0, 3600, 0, 0, 0, 1);
    p.name = vec![b'x'; 65];
    assert_eq!(initialize(p, 1, 2, 0).err(), Some(OracleError::InvalidName));

    let mut p = params(0, 3600, 0, 0, 0, 1);
    p.description = vec![b'y'; 257];
    assert_eq!(initialize(p, 1, 2, 0).err(), Some(OracleError::InvalidDescription));

    let p = params(100_001, 3600, 0, 0, 0, 1);
    assert_eq!(initialize(p, 1, 2, 0).err(), Some(OracleError::InvalidRewardRate));
}

#[test]
fn initialize_sets_every_field() {
    let s = fresh_oracle(250, 3600, 100, 50, 60, 2, 7);
    assert_eq!(s.authority, 1);
    assert_eq!(s.weight_mint, 2);
    assert_eq!(s.reward_bps, 250);
    assert_eq!(s.half_life_seconds, 3600);
    assert_eq!(s.quorum, 100);
    assert_eq!(s.deposit_locking_period, 50);
    assert_eq!(s.withdrawal_locking_period, 60);
    assert_eq!(s.alpha, 2);
    assert_eq!(s.aggregated_value, 0);
    assert_eq!(s.aggregated_weight, 0);
    assert_eq!(s.last_submission_time, 7);
    assert_eq!(s.last_timestamp, 7);
    assert_eq!(s.total_deposited_tokens, 0);
    assert!(s.price_history.is_empty());
    assert!(s.targets.is_empty());
}

#[test]
fn fund_needs_a_positive_amount() {
    let mut s = fresh_oracle(0, 3600, 0, 0, 0, 1, 0);
    assert_eq!(fund(&mut s, 9, 5, 0).err(), Some(OracleError::AmountMustBePositive));
    assert_eq!(s.last_timestamp, 0);
    let ev = fund(&mut s, 9, 5, 1000).unwrap();
    assert_eq!(ev.from, 9);
    assert_eq!(ev.amount, 1000);
    assert_eq!(s.last_timestamp, 5);
}

#[test]
fn deposit_locks_and_matures_exactly_once() {
    let mut s = fresh_oracle(0, 3600, 0, 100, 0, 1, 0);
    let mut u = UserState::new();
    deposit_tokens(&mut s, &mut u, 10, 20, 0, 1000).unwrap();
    assert_eq!(u.locked_tokens, 1000);
    assert_eq!(u.unlocked_tokens, 0);
    assert_eq!(u.deposit_timestamp, 0);
    assert_eq!(s.total_deposited_tokens, 1000);
    assert!(u.initialized);

    // before maturity nothing is withdrawable, and a rejection changes nothing
    let r = withdraw_tokens(&mut s, &mut u, 50, 400);
    assert_eq!(r.err(), Some(OracleError::InsufficientUnlockedTokens));
    assert_eq!(u.locked_tokens, 1000);
    assert_eq!(u.unlocked_tokens, 0);
    assert_eq!(s.total_deposited_tokens, 1000);

    // at maturity the whole batch moves into the unlocked balance, once
    let ev = withdraw_tokens(&mut s, &mut u, 100, 400).unwrap();
    assert_eq!(ev.user, 20);
    assert_eq!(ev.amount, 400);
    assert_eq!(u.locked_tokens, 0);
    assert_eq!(u.unlocked_tokens, 600);
    assert_eq!(s.total_deposited_tokens, 600);
}

#[test]
fn deposit_restarts_the_maturity_clock_for_the_whole_batch() {
    let mut s = fresh_oracle(0, 3600, 0, 100, 0, 1, 0);
    let mut u = UserState::new();
    deposit_tokens(&mut s, &mut u, 10, 20, 0, 500).unwrap();
    deposit_tokens(&mut s, &mut u, 10, 20, 50, 500).unwrap();
    assert_eq!(u.deposit_timestamp, 50);
    assert_eq!(u.locked_tokens, 1000);

    // the first 500 would have matured at 100, but the second deposit
    // re-locked them until 150
    let r = withdraw_tokens(&mut s, &mut u, 120, 1);
    assert_eq!(r.err(), Some(OracleError::InsufficientUnlockedTokens));
    assert!(withdraw_tokens(&mut s, &mut u, 150, 1000).is_ok());
}

#[test]
fn deposit_rejects_zero_and_foreign_records() {
    let mut s = fresh_oracle(0, 3600, 0, 0, 0, 1, 0);
    let mut u = UserState::new();
    assert_eq!(
        deposit_tokens(&mut s, &mut u, 10, 20, 0, 0).err(),
        Some(OracleError::AmountMustBePositive)
    );
    deposit_tokens(&mut s, &mut u, 10, 20, 0, 100).unwrap();
    assert_eq!(
        deposit_tokens(&mut s, &mut u, 10, 21, 1, 100).err(),
        Some(OracleError::InvalidAuthority)
    );
    assert_eq!(
        deposit_tokens(&mut s, &mut u, 11, 20, 1, 100).err(),
        Some(OracleError::InvalidAuthority)
    );
}

#[test]
fn deposit_reports_overflow_and_commits_nothing() {
    let mut s = fresh_oracle(0, 3600, 0, 1000, 0, 1, 0);
    let mut u = UserState::new();
    u.initialized = true;
    u.oracle = 10;
    u.owner = 20;
    u.locked_tokens = u64::MAX;
    u.deposit_timestamp = 0;
    let r = deposit_tokens(&mut s, &mut u, 10, 20, 1, 1);
    assert_eq!(r.err(), Some(OracleError::MathOverflow));
    assert_eq!(u.locked_tokens, u64::MAX);
    assert_eq!(s.total_deposited_tokens, 0);
}

#[test]
fn withdraw_respects_the_cooldown_and_changes_nothing_on_rejection() {
    let mut s = fresh_oracle(0, 3600, 0, 0, 1000, 1, 0);
    let mut u = UserState::new();
    deposit_tokens(&mut s, &mut u, 10, 20, 0, 1000).unwrap();
    // matured (lock period 0), but the cooldown runs from the deposit
    let r = withdraw_tokens(&mut s, &mut u, 5, 100);
    assert_eq!(r.err(), Some(OracleError::WithdrawalLocked));
    assert_eq!(u.locked_tokens, 0 + 1000);
    assert_eq!(u.unlocked_tokens, 0);
    assert_eq!(s.total_deposited_tokens, 1000);
    assert!(withdraw_tokens(&mut s, &mut u, 1000, 100).is_ok());
    assert_eq!(u.unlocked_tokens, 900);
}

#[test]
fn withdraw_reports_a_short_running_total() {
    let mut s = fresh_oracle(0, 3600, 0, 0, 0, 1, 0);
    let mut u = UserState::new();
    u.initialized = true;
    u.oracle = 10;
    u.owner = 20;
    u.unlocked_tokens = 100;
    s.total_deposited_tokens = 50;
    let r = withdraw_tokens(&mut s, &mut u, 5, 60);
    assert_eq!(r.err(), Some(OracleError::MathUnderflow));
    assert_eq!(u.unlocked_tokens, 100);
    assert_eq!(s.total_deposited_tokens, 50);
}

#[test]
fn submission_scenario_blends_by_decayed_weight() {
    // half-life one hour; rewards off so balances stay out of the picture
    let mut s = fresh_oracle(0, 3600, 0, 0, 0, 1, 0);
    let mut alice = UserState::new();
    deposit_tokens(&mut s, &mut alice, 10, 20, 0, 1000).unwrap();
    let ev = submit_value(&mut s, &mut alice, 10, 100, 0).unwrap();
    assert_eq!(ev.aggregated_value, 100);
    assert_eq!(ev.weight, 1000);
    assert_eq!(s.aggregated_value, 100);
    assert_eq!(s.aggregated_weight, 1000);
    assert_eq!(s.latest_value, 100);

    // one half-life later a second user of half the stake submits 200:
    // the first stake has decayed to 500, so both count equally
    let mut bob = UserState::new();
    deposit_tokens(&mut s, &mut bob, 10, 21, 10, 500).unwrap();
    submit_value(&mut s, &mut bob, 3610, 200, 0).unwrap();
    assert_eq!(s.aggregated_weight, 1000);
    assert_eq!(s.aggregated_value, 150);
    assert_eq!(s.latest_value, 200);
    assert!(s.aggregated_weight > 0);
}

#[test]
fn resubmitting_the_same_value_immediately_keeps_the_aggregate() {
    let mut s = fresh_oracle(0, 3600, 0, 0, 0, 1, 0);
    let mut u = UserState::new();
    deposit_tokens(&mut s, &mut u, 10, 20, 0, 1000).unwrap();
    submit_value(&mut s, &mut u, 50, 100, 0).unwrap();
    assert_eq!(s.aggregated_value, 100);
    submit_value(&mut s, &mut u, 50, 100, 0).unwrap();
    assert_eq!(s.aggregated_value, 100);
    assert_eq!(s.aggregated_weight, 1000);
}

#[test]
fn resubmitting_a_negative_value_immediately_keeps_the_aggregate() {
    let mut s = fresh_oracle(0, 3600, 0, 0, 0, 1, 0);
    let mut u = UserState::new();
    deposit_tokens(&mut s, &mut u, 10, 20, 0, 1000).unwrap();
    submit_value(&mut s, &mut u, 50, -100, 0).unwrap();
    assert_eq!(s.aggregated_value, -100);
    submit_value(&mut s, &mut u, 50, -100, 0).unwrap();
    assert_eq!(s.aggregated_value, -100);
    assert_eq!(s.aggregated_weight, 1000);
}

#[test]
fn submission_without_weight_is_rejected() {
    let mut s = fresh_oracle(0, 3600, 0, 0, 0, 1, 0);
    let mut u = UserState::new();
    assert_eq!(submit_value(&mut s, &mut u, 5, 100, 0).err(), Some(OracleError::NoUnlockedTokens));
    // a deposit still maturing gives no weight either
    let mut s2 = fresh_oracle(0, 3600, 0, 1000, 0, 1, 0);
    let mut u2 = UserState::new();
    deposit_tokens(&mut s2, &mut u2, 10, 20, 0, 1000).unwrap();
    assert_eq!(
        submit_value(&mut s2, &mut u2, 5, 100, 0).err(),
        Some(OracleError::NoUnlockedTokens)
    );
}

#[test]
fn first_submission_earns_nothing_and_a_repeat_earns_the_activity_share() {
    // 100% reward rate, alpha 1
    let mut s = fresh_oracle(100_000, 3600, 0, 0, 0, 1, 0);
    let mut u = UserState::new();
    deposit_tokens(&mut s, &mut u, 10, 20, 0, 1000).unwrap();
    // the aggregate weight is still zero, so the first reward is zero
    let ev = submit_value(&mut s, &mut u, 3600, 100, 10_000).unwrap();
    assert_eq!(ev.reward_lamports, 0);
    // one half-life later: activity WAD/2, decayed total 500,
    // reward = 1 * 10000 * (1000 * (WAD/2) / WAD) / 500 = 10000
    let ev = submit_value(&mut s, &mut u, 7200, 100, 10_000).unwrap();
    assert_eq!(ev.reward_lamports, 10_000);
}

#[test]
fn a_reward_beyond_the_held_balance_aborts_the_submission() {
    // alpha 3 triples the share and pushes the reward past the balance
    let mut s = fresh_oracle(100_000, 3600, 0, 0, 0, 3, 0);
    let mut u = UserState::new();
    deposit_tokens(&mut s, &mut u, 10, 20, 0, 1000).unwrap();
    submit_value(&mut s, &mut u, 3600, 100, 10_000).unwrap();
    let before_value = s.aggregated_value;
    let before_len = s.price_history.len();
    let r = submit_value(&mut s, &mut u, 7200, 100, 10_000);
    assert_eq!(r.err(), Some(OracleError::MathUnderflow));
    assert_eq!(s.aggregated_value, before_value);
    assert_eq!(s.price_history.len(), before_len);
}

#[test]
fn a_submission_with_no_elapsed_user_time_earns_nothing() {
    let mut s = fresh_oracle(100_000, 3600, 0, 0, 0, 1, 0);
    let mut u = UserState::new();
    deposit_tokens(&mut s, &mut u, 10, 20, 0, 1000).unwrap();
    submit_value(&mut s, &mut u, 3600, 100, 10_000).unwrap();
    // same instant, huge pool: still nothing
    let ev = submit_value(&mut s, &mut u, 3600, 100, u64::MAX).unwrap();
    assert_eq!(ev.reward_lamports, 0);
}

#[test]
fn history_keeps_the_newest_128_records_in_order() {
    // zero half-life: no decay, rewards off
    let mut s = fresh_oracle(0, 0, 0, 0, 0, 1, 0);
    let mut u = UserState::new();
    deposit_tokens(&mut s, &mut u, 10, 20, 0, 1000).unwrap();
    let mut t: i64 = 1;
    while t <= 129 {
        submit_value(&mut s, &mut u, t, 42, 0).unwrap();
        assert!(s.price_history.len() <= 128);
        t += 1;
    }
    assert_eq!(s.price_history.len(), 128);
    // the very first record (timestamp 1) was evicted
    assert_eq!(s.price_history[0].timestamp, 2);
    assert_eq!(s.price_history[127].timestamp, 129);
    let mut i = 1;
    while i < 128 {
        assert!(s.price_history[i - 1].timestamp < s.price_history[i].timestamp);
        assert_eq!(s.price_history[i].aggregated_value, 42);
        assert_eq!(s.price_history[i].latest_value, 42);
        i += 1;
    }
}
