use oracle::errors::OracleError;
use oracle::ops::{
    deposit_tokens, initialize, submit_value, update_user_vote_weights, vote_blacklist,
    vote_whitelist, withdraw_tokens,
};
use oracle::state::{InitializeOracleParams, OracleState, TargetVotes, UserState, UserVote};

fn quorum_oracle(quorum: u64) -> OracleState {
    initialize(
        InitializeOracleParams {
            name: b"votes".to_vec(),
            description: b"governance".to_vec(),
            reward_bps: 0,
            half_life_seconds: 3600,
            quorum,
            deposit_locking_period: 0,
            withdrawal_locking_period: 0,
            alpha: 1,
        },
        1,
        2,
        0,
    )
    .unwrap()
}

fn staked_user(s: &mut OracleState, owner: u64, stake: u64, now: i64) -> UserState {
    let mut u = UserState::new();
    deposit_tokens(s, &mut u, 10, owner, now, stake).unwrap();
    u
}

#[test]
fn tallies_accumulate_and_the_flag_flips_only_past_quorum_and_majority() {
    let mut s = quorum_oracle(100);
    let mut alice = staked_user(&mut s, 20, 60, 0);
    let (voted, change) = vote_blacklist(&mut s, &mut alice, 1, 777).unwrap();
    assert_eq!(voted.weight, 60);
    assert!(voted.is_blacklist);
    // majority but no quorum: no flip
    assert!(change.is_none());
    assert_eq!(s.targets[0].target, 777);
    assert_eq!(s.targets[0].blacklist_votes, 60);
    assert_eq!(s.targets[0].whitelist_votes, 0);
    assert!(!s.targets[0].is_blacklisted);

    // a second voter pushes the combined weight past the quorum: one flip
    let mut bob = staked_user(&mut s, 21, 50, 1);
    let (_, change) = vote_blacklist(&mut s, &mut bob, 2, 777).unwrap();
    assert_eq!(s.targets[0].blacklist_votes, 110);
    assert!(s.targets[0].is_blacklisted);
    let change = change.unwrap();
    assert_eq!(change.target, 777);
    assert!(change.is_blacklisted);

    // counter-voting with more weight removes the majority: flips back
    let mut carol = staked_user(&mut s, 22, 200, 2);
    let (_, change) = vote_whitelist(&mut s, &mut carol, 3, 777).unwrap();
    assert_eq!(s.targets[0].whitelist_votes, 200);
    assert!(!s.targets[0].is_blacklisted);
    assert!(!change.unwrap().is_blacklisted);

    // the tallies equal the sum of the recorded per-user weights
    assert_eq!(
        s.targets[0].blacklist_votes,
        alice.blacklist_votes[0].weight + bob.blacklist_votes[0].weight
    );
    assert_eq!(s.targets[0].whitelist_votes, carol.whitelist_votes[0].weight);
}

#[test]
fn voting_twice_on_one_target_is_rejected() {
    let mut s = quorum_oracle(100);
    let mut alice = staked_user(&mut s, 20, 60, 0);
    vote_blacklist(&mut s, &mut alice, 1, 777).unwrap();
    assert_eq!(
        vote_blacklist(&mut s, &mut alice, 2, 777).err(),
        Some(OracleError::AlreadyVoted)
    );
    // the other list is independent: a whitelist vote on the same target works
    vote_whitelist(&mut s, &mut alice, 3, 777).unwrap();
    assert_eq!(s.targets.len(), 1);
    assert_eq!(s.targets[0].blacklist_votes, 60);
    assert_eq!(s.targets[0].whitelist_votes, 60);
}

#[test]
fn a_voter_without_weight_is_rejected() {
    let mut s = quorum_oracle(100);
    let mut u = UserState::new();
    assert_eq!(vote_blacklist(&mut s, &mut u, 1, 777).err(), Some(OracleError::NoUnlockedTokens));
}

#[test]
fn a_blacklisted_caller_may_neither_vote_nor_submit() {
    let mut s = quorum_oracle(100);
    let mut alice = staked_user(&mut s, 20, 60, 0);
    s.targets.push(TargetVotes {
        target: 20,
        blacklist_votes: 500,
        whitelist_votes: 0,
        is_blacklisted: true,
    });
    assert_eq!(
        vote_blacklist(&mut s, &mut alice, 1, 777).err(),
        Some(OracleError::AccountBlacklisted)
    );
    assert_eq!(
        submit_value(&mut s, &mut alice, 1, 100, 0).err(),
        Some(OracleError::AccountBlacklisted)
    );
}

#[test]
fn the_target_list_is_capped() {
    let mut s = quorum_oracle(100);
    let mut alice = staked_user(&mut s, 20, 60, 0);
    let mut t: u64 = 0;
    while t < 64 {
        s.targets.push(TargetVotes {
            target: 1000 + t,
            blacklist_votes: 0,
            whitelist_votes: 0,
            is_blacklisted: false,
        });
        t += 1;
    }
    assert_eq!(
        vote_blacklist(&mut s, &mut alice, 1, 777).err(),
        Some(OracleError::TooManyTargets)
    );
    // voting on a target that already has a record still works
    assert!(vote_blacklist(&mut s, &mut alice, 2, 1000).is_ok());
}

#[test]
fn a_full_vote_list_is_capped() {
    let mut s = quorum_oracle(100);
    let mut alice = staked_user(&mut s, 20, 60, 0);
    let mut t: u64 = 0;
    while t < 64 {
        alice.blacklist_votes.push(UserVote { target: 2000 + t, weight: 1 });
        t += 1;
    }
    assert_eq!(
        vote_blacklist(&mut s, &mut alice, 1, 777).err(),
        Some(OracleError::TooManyVotes)
    );
}

#[test]
fn a_tally_overflow_is_rejected() {
    let mut s = quorum_oracle(100);
    let mut alice = staked_user(&mut s, 20, 60, 0);
    s.targets.push(TargetVotes {
        target: 777,
        blacklist_votes: u64::MAX,
        whitelist_votes: 0,
        is_blacklisted: true,
    });
    assert_eq!(
        vote_blacklist(&mut s, &mut alice, 1, 777).err(),
        Some(OracleError::MathOverflow)
    );
}

#[test]
fn withdrawing_resynchronizes_outstanding_votes() {
    let mut s = quorum_oracle(100);
    let mut alice = staked_user(&mut s, 20, 150, 0);
    vote_blacklist(&mut s, &mut alice, 1, 777).unwrap();
    assert_eq!(s.targets[0].blacklist_votes, 150);
    assert!(s.targets[0].is_blacklisted);

    // withdrawing drops the effective weight to 50: the tally follows and
    // the flag is re-evaluated under the quorum rule
    withdraw_tokens(&mut s, &mut alice, 2, 100).unwrap();
    assert_eq!(s.targets[0].blacklist_votes, 50);
    assert!(!s.targets[0].is_blacklisted);
    assert_eq!(alice.blacklist_votes[0].weight, 50);
}

#[test]
fn an_explicit_refresh_resynchronizes_votes_upward() {
    let mut s = quorum_oracle(100);
    let mut alice = staked_user(&mut s, 20, 60, 0);
    vote_blacklist(&mut s, &mut alice, 1, 777).unwrap();
    assert_eq!(s.targets[0].blacklist_votes, 60);
    assert!(!s.targets[0].is_blacklisted);

    // more stake matures; the refresh lifts the recorded vote to 160 and
    // the target crosses quorum and majority
    deposit_tokens(&mut s, &mut alice, 10, 20, 2, 100).unwrap();
    update_user_vote_weights(&mut s, &mut alice, 3).unwrap();
    assert_eq!(s.targets[0].blacklist_votes, 160);
    assert!(s.targets[0].is_blacklisted);
    assert_eq!(alice.blacklist_votes[0].weight, 160);
}

#[test]
fn a_refresh_without_weight_is_rejected() {
    let mut s = quorum_oracle(100);
    let mut u = UserState::new();
    assert_eq!(
        update_user_vote_weights(&mut s, &mut u, 1).err(),
        Some(OracleError::NoUnlockedTokens)
    );
}
