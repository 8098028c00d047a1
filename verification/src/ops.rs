//! The oracle's operations. Each one takes the current timestamp and any
//! balances it needs as plain values, validates, computes, and commits all
//! of its changes only when every step succeeded: an operation that returns
//! an error leaves both records exactly as they were.

use vstd::prelude::*;
use vstd::arithmetic::mul::lemma_mul_upper_bound;

use crate::decay::{
    apply_decay, calculate_reward, spec_apply_decay, spec_apply_decay_ok, spec_reward,
    spec_reward_ok, DENOMINATOR,
};
use crate::errors::OracleError;
use crate::events::{
    BlacklistStatusChanged, Funded, TokenDeposited, TokenWithdrawn, ValueSubmitted, Voted,
};
use crate::state::{
    find_target, has_vote, lemma_target_index_spec, lemma_unlock_preserves_sum,
    oracle_well_formed, should_blacklist, spec_has_vote, spec_is_blacklisted,
    spec_push_history, spec_should_blacklist, spec_target_index, spec_time_diff, spec_unlock,
    spec_widen_period, targets_well_formed, time_difference, unlock_tokens_if_possible,
    user_funds_covered, user_well_formed, widen_period, AccountId, InitializeOracleParams,
    OracleState, PriceRecord, TargetVotes, UserState, UserVote, MAX_DESCRIPTION_LEN,
    MAX_NAME_LEN, MAX_TARGET_RECORDS, MAX_USER_VOTES,
};

verus! {

/// Why initialization rejects its parameters, if it does: an empty or
/// oversized name, an oversized description, or a reward rate above 100%.
pub open spec fn spec_initialize_err(params: InitializeOracleParams) -> Option<OracleError> {
    if params.name@.len() == 0 || params.name@.len() > MAX_NAME_LEN {
        Some(OracleError::InvalidName)
    } else if params.description@.len() > MAX_DESCRIPTION_LEN {
        Some(OracleError::InvalidDescription)
    } else if params.reward_bps > DENOMINATOR {
        Some(OracleError::InvalidRewardRate)
    } else {
        None
    }
}

/// Creates a fresh oracle record under the given authority for the given
/// weight token. All policy parameters are fixed here for good.
pub fn initialize(
    params: InitializeOracleParams,
    authority: AccountId,
    weight_mint: AccountId,
    now: i64,
) -> (r: Result<OracleState, OracleError>)
    ensures
        r is Ok <==> spec_initialize_err(params) is None,
        r matches Err(e) ==> spec_initialize_err(params) == Some(e),
        r matches Ok(s) ==> {
            &&& s.authority == authority
            &&& s.weight_mint == weight_mint
            &&& s.reward_bps == params.reward_bps
            &&& s.half_life_seconds == params.half_life_seconds
            &&& s.quorum == params.quorum
            &&& s.deposit_locking_period == params.deposit_locking_period
            &&& s.withdrawal_locking_period == params.withdrawal_locking_period
            &&& s.alpha == params.alpha
            &&& s.aggregated_value == 0
            &&& s.latest_value == 0
            &&& s.aggregated_weight == 0
            &&& s.last_submission_time == now
            &&& s.last_timestamp == now
            &&& s.total_deposited_tokens == 0
            &&& s.name@ == params.name@
            &&& s.description@ == params.description@
            &&& s.price_history@ == Seq::<PriceRecord>::empty()
            &&& s.targets@ == Seq::<TargetVotes>::empty()
            &&& oracle_well_formed(s)
        },
{
    if params.name.len() == 0 || params.name.len() > MAX_NAME_LEN {
        return Err(OracleError::InvalidName);
    }
    if params.description.len() > MAX_DESCRIPTION_LEN {
        return Err(OracleError::InvalidDescription);
    }
    if params.reward_bps > DENOMINATOR {
        return Err(OracleError::InvalidRewardRate);
    }
    Ok(
        OracleState {
            authority,
            weight_mint,
            reward_bps: params.reward_bps,
            half_life_seconds: params.half_life_seconds,
            quorum: params.quorum,
            deposit_locking_period: params.deposit_locking_period,
            withdrawal_locking_period: params.withdrawal_locking_period,
            alpha: params.alpha,
            aggregated_value: 0,
            latest_value: 0,
            aggregated_weight: 0,
            last_submission_time: now,
            last_timestamp: now,
            total_deposited_tokens: 0,
            name: params.name,
            description: params.description,
            price_history: Vec::new(),
            targets: Vec::new(),
        },
    )
}

/// Notes a funding transfer into the oracle's held balance. The transfer
/// itself is the host's value-movement capability; the record only tracks
/// when it was last touched.
pub fn fund(state: &mut OracleState, from: AccountId, now: i64, amount: u64) -> (r: Result<
    Funded,
    OracleError,
>)
    ensures
        r is Ok <==> amount > 0,
        r matches Err(e) ==> e == OracleError::AmountMustBePositive && *final(state) == *old(
            state,
        ),
        r is Ok ==> *final(state) == (OracleState { last_timestamp: now, ..*old(state) }),
        r matches Ok(ev) ==> ev == (Funded { from, amount }),
{
    if amount == 0 {
        return Err(OracleError::AmountMustBePositive);
    }
    state.last_timestamp = now;
    Ok(Funded { from, amount })
}

/// Why a deposit fails, if it does, in the order the checks run.
pub open spec fn spec_deposit_err(
    s: OracleState,
    u: UserState,
    oracle: AccountId,
    owner: AccountId,
    now: i64,
    amount: u64,
) -> Option<OracleError> {
    if amount == 0 {
        Some(OracleError::AmountMustBePositive)
    } else if u.initialized && !(u.oracle == oracle && u.owner == owner) {
        Some(OracleError::InvalidAuthority)
    } else {
        let u1 = spec_unlock(u, s, now);
        if u1.locked_tokens + amount > u64::MAX {
            Some(OracleError::MathOverflow)
        } else if s.total_deposited_tokens + amount > u64::MAX {
            Some(OracleError::MathOverflow)
        } else {
            None
        }
    }
}

/// The user record a successful deposit commits: matured balances, the
/// amount added to the locked balance, and the maturity clock restarted.
pub open spec fn spec_deposit_user(
    s: OracleState,
    u: UserState,
    oracle: AccountId,
    owner: AccountId,
    now: i64,
    amount: u64,
) -> UserState {
    let u1 = spec_unlock(u, s, now);
    UserState {
        oracle,
        owner,
        initialized: true,
        locked_tokens: (u1.locked_tokens + amount) as u64,
        unlocked_tokens: u1.unlocked_tokens,
        deposit_timestamp: now,
        last_operation_timestamp: now,
        ..u
    }
}

/// The oracle record a successful deposit commits: the running total grown
/// by the amount.
pub open spec fn spec_deposit_oracle(s: OracleState, now: i64, amount: u64) -> OracleState {
    OracleState {
        total_deposited_tokens: (s.total_deposited_tokens + amount) as u64,
        last_timestamp: now,
        ..s
    }
}

/// Deposits `amount` weight tokens for the participant `owner` under the
/// oracle record keyed `oracle`. The host has already moved the tokens into
/// the vault; this commits the bookkeeping. A first deposit claims the user
/// record for `(oracle, owner)`. Every deposit restarts the maturity clock
/// for the entire locked balance.
pub fn deposit_tokens(
    state: &mut OracleState,
    user_state: &mut UserState,
    oracle: AccountId,
    owner: AccountId,
    now: i64,
    amount: u64,
) -> (r: Result<TokenDeposited, OracleError>)
    ensures
        r is Ok <==> spec_deposit_err(*old(state), *old(user_state), oracle, owner, now, amount)
            is None,
        r matches Err(e) ==> {
            &&& spec_deposit_err(*old(state), *old(user_state), oracle, owner, now, amount)
                == Some(e)
            &&& *final(state) == *old(state)
            &&& *final(user_state) == *old(user_state)
        },
        r is Ok ==> {
            &&& *final(state) == spec_deposit_oracle(*old(state), now, amount)
            &&& *final(user_state) == spec_deposit_user(
                *old(state),
                *old(user_state),
                oracle,
                owner,
                now,
                amount,
            )
        },
        r matches Ok(ev) ==> ev == (TokenDeposited { user: owner, amount }),
{
    if amount == 0 {
        return Err(OracleError::AmountMustBePositive);
    }
    if user_state.initialized && !(user_state.oracle == oracle && user_state.owner == owner) {
        return Err(OracleError::InvalidAuthority);
    }

    let (locked_now, unlocked_now) = unlock_tokens_if_possible(state, user_state, now);

    let new_locked: u64 = match locked_now.checked_add(amount) {
        Some(v) => v,
        None => { return Err(OracleError::MathOverflow) },
    };
    let new_total: u64 = match state.total_deposited_tokens.checked_add(amount) {
        Some(v) => v,
        None => { return Err(OracleError::MathOverflow) },
    };

    user_state.oracle = oracle;
    user_state.owner = owner;
    user_state.initialized = true;
    user_state.locked_tokens = new_locked;
    user_state.unlocked_tokens = unlocked_now;
    user_state.deposit_timestamp = now;
    user_state.last_operation_timestamp = now;

    state.total_deposited_tokens = new_total;
    state.last_timestamp = now;

    Ok(TokenDeposited { user: owner, amount })
}

/// Which of the two vote tallies a vote lands on.
#[derive(Clone, Copy, Debug, PartialEq, Eq, Structural)]
pub enum VoteKind {
    Blacklist,
    Whitelist,
}

/// The vote list the kind selects.
pub open spec fn spec_vote_list(u: UserState, is_blacklist: bool) -> Seq<UserVote> {
    if is_blacklist {
        u.blacklist_votes@
    } else {
        u.whitelist_votes@
    }
}

/// Why a vote fails, if it does, in the order the checks run: a blacklisted
/// caller, no unlocked weight, a duplicate vote, a full vote list, a full
/// target list, or a tally that would overflow.
pub open spec fn spec_vote_err(
    s: OracleState,
    u: UserState,
    now: i64,
    target: AccountId,
    is_blacklist: bool,
) -> Option<OracleError> {
    if spec_is_blacklisted(s, u.owner) {
        Some(OracleError::AccountBlacklisted)
    } else {
        let w = spec_unlock(u, s, now).unlocked_tokens;
        if w == 0 {
            Some(OracleError::NoUnlockedTokens)
        } else {
            let vs = spec_vote_list(u, is_blacklist);
            if spec_has_vote(vs, target) {
                Some(OracleError::AlreadyVoted)
            } else if vs.len() >= MAX_USER_VOTES {
                Some(OracleError::TooManyVotes)
            } else {
                let i = spec_target_index(s.targets@, target);
                if i == -1 && s.targets@.len() >= MAX_TARGET_RECORDS {
                    Some(OracleError::TooManyTargets)
                } else {
                    let tally: int = if i == -1 {
                        0
                    } else if is_blacklist {
                        s.targets@[i].blacklist_votes as int
                    } else {
                        s.targets@[i].whitelist_votes as int
                    };
                    if tally + w > u64::MAX {
                        Some(OracleError::MathOverflow)
                    } else {
                        None
                    }
                }
            }
        }
    }
}

/// The target's record after a vote of weight `w` lands on it: the chosen
/// tally grows by `w` and the flag is re-evaluated under the status rule.
pub open spec fn spec_vote_new_record(
    s: OracleState,
    w: u64,
    target: AccountId,
    is_blacklist: bool,
) -> TargetVotes {
    let i = spec_target_index(s.targets@, target);
    let rec = if i == -1 {
        TargetVotes { target, blacklist_votes: 0, whitelist_votes: 0, is_blacklisted: false }
    } else {
        s.targets@[i]
    };
    let bl = if is_blacklist {
        (rec.blacklist_votes + w) as u64
    } else {
        rec.blacklist_votes
    };
    let wl = if is_blacklist {
        rec.whitelist_votes
    } else {
        (rec.whitelist_votes + w) as u64
    };
    TargetVotes {
        target,
        blacklist_votes: bl,
        whitelist_votes: wl,
        is_blacklisted: spec_should_blacklist(bl, wl, s.quorum),
    }
}

/// The target list after a vote: the updated record replaces the old one,
/// or is appended when the target is new.
pub open spec fn spec_vote_targets(
    s: OracleState,
    u: UserState,
    now: i64,
    target: AccountId,
    is_blacklist: bool,
) -> Seq<TargetVotes> {
    let w = spec_unlock(u, s, now).unlocked_tokens;
    let i = spec_target_index(s.targets@, target);
    let rec = spec_vote_new_record(s, w, target, is_blacklist);
    if i == -1 {
        s.targets@.push(rec)
    } else {
        s.targets@.update(i, rec)
    }
}

/// Whether this vote actually flips the target's blacklist flag.
pub open spec fn spec_vote_changed(
    s: OracleState,
    u: UserState,
    now: i64,
    target: AccountId,
    is_blacklist: bool,
) -> bool {
    let i = spec_target_index(s.targets@, target);
    let old_flag = if i == -1 {
        false
    } else {
        s.targets@[i].is_blacklisted
    };
    let w = spec_unlock(u, s, now).unlocked_tokens;
    old_flag != spec_vote_new_record(s, w, target, is_blacklist).is_blacklisted
}

/// Everything a vote commits or refuses: the full contract shared by the
/// two public vote entry points and the kind-dispatching worker. `s0`/`u0`
/// are the records before the call, `s1`/`u1` after it.
pub open spec fn spec_vote_post(
    s0: OracleState,
    u0: UserState,
    s1: OracleState,
    u1: UserState,
    now: i64,
    target: AccountId,
    is_bl: bool,
    r: Result<(Voted, Option<BlacklistStatusChanged>), OracleError>,
) -> bool {
    &&& (r is Ok <==> spec_vote_err(s0, u0, now, target, is_bl) is None)
    &&& (r matches Err(e) ==> {
        &&& spec_vote_err(s0, u0, now, target, is_bl) == Some(e)
        &&& s1 == s0
        &&& u1 == u0
    })
    &&& (r matches Ok(out) ==> {
        let um = spec_unlock(u0, s0, now);
        let w = um.unlocked_tokens;
        &&& s1.targets@ == spec_vote_targets(s0, u0, now, target, is_bl)
        &&& s1 == (OracleState { targets: s1.targets, last_timestamp: now, ..s0 })
        &&& u1 == (UserState {
            locked_tokens: um.locked_tokens,
            unlocked_tokens: um.unlocked_tokens,
            last_operation_timestamp: now,
            blacklist_votes: u1.blacklist_votes,
            whitelist_votes: u1.whitelist_votes,
            ..u0
        })
        &&& (is_bl ==> u1.blacklist_votes@ == u0.blacklist_votes@.push(
            UserVote { target, weight: w },
        ) && u1.whitelist_votes == u0.whitelist_votes)
        &&& (!is_bl ==> u1.whitelist_votes@ == u0.whitelist_votes@.push(
            UserVote { target, weight: w },
        ) && u1.blacklist_votes == u0.blacklist_votes)
        &&& out.0 == (Voted { target, voter: u0.owner, is_blacklist: is_bl, weight: w })
        &&& out.1 == (if spec_vote_changed(s0, u0, now, target, is_bl) {
            Some(
                BlacklistStatusChanged {
                    target,
                    is_blacklisted: spec_vote_new_record(s0, w, target, is_bl).is_blacklisted,
                },
            )
        } else {
            None
        })
        &&& oracle_well_formed(s1)
        &&& user_well_formed(u1)
        &&& user_funds_covered(s1, u1)
    })
}

/// Casts the caller's full current unlocked weight on `target`, in the list
/// `kind` selects. Creates the target record on first reference. The flag
/// change is reported only when the status rule's outcome actually flips.
pub fn process_vote(
    state: &mut OracleState,
    user_state: &mut UserState,
    now: i64,
    target: AccountId,
    kind: VoteKind,
) -> (r: Result<(Voted, Option<BlacklistStatusChanged>), OracleError>)
    requires
        oracle_well_formed(*old(state)),
        user_well_formed(*old(user_state)),
        user_funds_covered(*old(state), *old(user_state)),
    ensures
        spec_vote_post(
            *old(state),
            *old(user_state),
            *final(state),
            *final(user_state),
            now,
            target,
            kind == VoteKind::Blacklist,
            r,
        ),
{
    let is_bl = match kind {
        VoteKind::Blacklist => true,
        VoteKind::Whitelist => false,
    };

    if state.is_blacklisted(user_state.owner) {
        return Err(OracleError::AccountBlacklisted);
    }

    let (locked_now, unlocked_now) = unlock_tokens_if_possible(state, user_state, now);
    let weight: u64 = unlocked_now;
    if weight == 0 {
        return Err(OracleError::NoUnlockedTokens);
    }

    let duplicate = if is_bl {
        has_vote(&user_state.blacklist_votes, target)
    } else {
        has_vote(&user_state.whitelist_votes, target)
    };
    if duplicate {
        return Err(OracleError::AlreadyVoted);
    }
    let list_len: usize = if is_bl {
        user_state.blacklist_votes.len()
    } else {
        user_state.whitelist_votes.len()
    };
    if list_len >= MAX_USER_VOTES {
        return Err(OracleError::TooManyVotes);
    }

    let (idx, fresh) = match find_target(&state.targets, target) {
        Some(i) => (i, false),
        None => {
            if state.targets.len() >= MAX_TARGET_RECORDS {
                return Err(OracleError::TooManyTargets);
            }
            (state.targets.len(), true)
        },
    };
    let old_rec: TargetVotes = if fresh {
        TargetVotes::new(target)
    } else {
        state.targets[idx]
    };

    let new_bl: u64 = if is_bl {
        match old_rec.blacklist_votes.checked_add(weight) {
            Some(v) => v,
            None => { return Err(OracleError::MathOverflow) },
        }
    } else {
        old_rec.blacklist_votes
    };
    let new_wl: u64 = if is_bl {
        old_rec.whitelist_votes
    } else {
        match old_rec.whitelist_votes.checked_add(weight) {
            Some(v) => v,
            None => { return Err(OracleError::MathOverflow) },
        }
    };
    let flag: bool = should_blacklist(new_bl, new_wl, state.quorum);
    let changed: bool = old_rec.is_blacklisted != flag;
    let new_rec = TargetVotes {
        target,
        blacklist_votes: new_bl,
        whitelist_votes: new_wl,
        is_blacklisted: flag,
    };

    proof {
        lemma_unlock_preserves_sum(*old(user_state), *old(state), now);
    }

    if fresh {
        state.targets.push(new_rec);
    } else {
        state.targets.set(idx, new_rec);
    }
    if is_bl {
        user_state.blacklist_votes.push(UserVote { target, weight });
    } else {
        user_state.whitelist_votes.push(UserVote { target, weight });
    }
    user_state.locked_tokens = locked_now;
    user_state.unlocked_tokens = unlocked_now;
    user_state.last_operation_timestamp = now;
    state.last_timestamp = now;

    proof {
        assert(targets_well_formed(final(state).targets@)) by {
            let ts0 = old(state).targets@;
            let ts1 = final(state).targets@;
            assert forall|i: int, j: int| 0 <= i < j < ts1.len() implies #[trigger] ts1[i].target
                != #[trigger] ts1[j].target by {
                if fresh {
                    if j < ts0.len() {
                        assert(ts0[i].target != ts0[j].target);
                    } else {
                        assert(ts0[i].target != target);
                    }
                } else {
                    assert(ts0[i].target == ts1[i].target);
                    assert(ts0[j].target == ts1[j].target);
                }
            }
        }
    }

    Ok(
        (
            Voted { target, voter: user_state.owner, is_blacklist: is_bl, weight },
            if changed {
                Some(BlacklistStatusChanged { target, is_blacklisted: flag })
            } else {
                None
            },
        ),
    )
}

/// One step of weight re-synchronization: on the target of one recorded
/// vote, the voter's old weight leaves the chosen tally and the new weight
/// enters it, and the flag is re-evaluated. A missing target record is
/// created first, exactly as a vote would create it.
pub open spec fn spec_reweight_step(
    ts: Seq<TargetVotes>,
    v: UserVote,
    new_weight: u64,
    quorum: u64,
    is_blacklist: bool,
) -> Result<Seq<TargetVotes>, OracleError> {
    let i0 = spec_target_index(ts, v.target);
    if i0 == -1 && ts.len() >= MAX_TARGET_RECORDS {
        Err(OracleError::TooManyTargets)
    } else {
        let ts1 = if i0 == -1 {
            ts.push(
                TargetVotes {
                    target: v.target,
                    blacklist_votes: 0,
                    whitelist_votes: 0,
                    is_blacklisted: false,
                },
            )
        } else {
            ts
        };
        let i = if i0 == -1 {
            ts.len() as int
        } else {
            i0
        };
        let rec = ts1[i];
        let tally: int = if is_blacklist {
            rec.blacklist_votes as int
        } else {
            rec.whitelist_votes as int
        };
        if tally < v.weight {
            Err(OracleError::MathUnderflow)
        } else if tally - v.weight + new_weight > u64::MAX {
            Err(OracleError::MathOverflow)
        } else {
            let new_tally = (tally - v.weight + new_weight) as u64;
            let bl = if is_blacklist {
                new_tally
            } else {
                rec.blacklist_votes
            };
            let wl = if is_blacklist {
                rec.whitelist_votes
            } else {
                new_tally
            };
            Ok(
                ts1.update(
                    i,
                    TargetVotes {
                        target: rec.target,
                        blacklist_votes: bl,
                        whitelist_votes: wl,
                        is_blacklisted: spec_should_blacklist(bl, wl, quorum),
                    },
                ),
            )
        }
    }
}

/// Weight re-synchronization over one vote list, vote by vote in list
/// order, stopping at the first failing step.
pub open spec fn spec_reweight(
    ts: Seq<TargetVotes>,
    vs: Seq<UserVote>,
    new_weight: u64,
    quorum: u64,
    is_blacklist: bool,
) -> Result<Seq<TargetVotes>, OracleError>
    decreases vs.len(),
{
    if vs.len() == 0 {
        Ok(ts)
    } else {
        match spec_reweight_step(ts, vs[0], new_weight, quorum, is_blacklist) {
            Result::Err(e) => Err(e),
            Result::Ok(ts1) => spec_reweight(
                ts1,
                vs.drop_first(),
                new_weight,
                quorum,
                is_blacklist,
            ),
        }
    }
}

/// Weight re-synchronization over both of a user's vote lists: first every
/// blacklist vote, then every whitelist vote.
pub open spec fn spec_reweight_all(s: OracleState, u: UserState, new_weight: u64) -> Result<
    Seq<TargetVotes>,
    OracleError,
> {
    match spec_reweight(s.targets@, u.blacklist_votes@, new_weight, s.quorum, true) {
        Result::Err(e) => Err(e),
        Result::Ok(ts1) => spec_reweight(ts1, u.whitelist_votes@, new_weight, s.quorum, false),
    }
}

/// A vote list with every recorded weight replaced by `new_weight`: what a
/// re-synchronization commits for the voter.
pub open spec fn remap_votes(vs: Seq<UserVote>, new_weight: u64) -> Seq<UserVote> {
    vs.map_values(|v: UserVote| UserVote { target: v.target, weight: new_weight })
}

/// A re-synchronization step keeps the target list well formed and never
/// shrinks it.
pub proof fn lemma_reweight_step_wf(
    ts: Seq<TargetVotes>,
    v: UserVote,
    new_weight: u64,
    quorum: u64,
    is_blacklist: bool,
)
    requires
        targets_well_formed(ts),
    ensures
        spec_reweight_step(ts, v, new_weight, quorum, is_blacklist) matches Ok(ts1) ==> {
            &&& targets_well_formed(ts1)
            &&& ts.len() <= ts1.len()
        },
{
    lemma_target_index_spec(ts, v.target);
    let r = spec_reweight_step(ts, v, new_weight, quorum, is_blacklist);
    if r is Ok {
        let i0 = spec_target_index(ts, v.target);
        let ts1 = r->Ok_0;
        if i0 == -1 {
            assert forall|i: int, j: int| 0 <= i < j < ts1.len() implies #[trigger] ts1[i].target
                != #[trigger] ts1[j].target by {
                if j < ts.len() {
                    assert(ts[i].target != ts[j].target);
                } else if j == ts.len() {
                    assert(ts[i].target != v.target);
                }
            }
        } else {
            assert forall|i: int, j: int| 0 <= i < j < ts1.len() implies #[trigger] ts1[i].target
                != #[trigger] ts1[j].target by {
                assert(ts[i].target == ts1[i].target);
                assert(ts[j].target == ts1[j].target);
            }
        }
    }
}

/// Re-synchronization over a whole list keeps the target list well formed.
pub proof fn lemma_reweight_wf(
    ts: Seq<TargetVotes>,
    vs: Seq<UserVote>,
    new_weight: u64,
    quorum: u64,
    is_blacklist: bool,
)
    requires
        targets_well_formed(ts),
    ensures
        spec_reweight(ts, vs, new_weight, quorum, is_blacklist) matches Ok(r) ==>
            targets_well_formed(r),
    decreases vs.len(),
{
    if vs.len() != 0 {
        lemma_reweight_step_wf(ts, vs[0], new_weight, quorum, is_blacklist);
        let step = spec_reweight_step(ts, vs[0], new_weight, quorum, is_blacklist);
        if step is Ok {
            lemma_reweight_wf(step->Ok_0, vs.drop_first(), new_weight, quorum, is_blacklist);
        }
    }
}

/// Runs the re-synchronization of one vote list on scratch copies: returns
/// the updated target list and the vote list with every recorded weight
/// replaced by `new_weight`. The inputs are untouched, so a caller can
/// commit only on success.
fn reweight_votes(
    targets: &Vec<TargetVotes>,
    votes: &Vec<UserVote>,
    new_weight: u64,
    quorum: u64,
    is_blacklist: bool,
) -> (r: Result<(Vec<TargetVotes>, Vec<UserVote>), OracleError>)
    ensures
        r matches Ok(p) ==> spec_reweight(targets@, votes@, new_weight, quorum, is_blacklist)
            == Ok::<Seq<TargetVotes>, OracleError>(p.0@) && p.1@ == remap_votes(
            votes@,
            new_weight,
        ),
        r matches Err(e) ==> spec_reweight(targets@, votes@, new_weight, quorum, is_blacklist)
            == Err::<Seq<TargetVotes>, OracleError>(e),
{
    let ghost remap = |v: UserVote| UserVote { target: v.target, weight: new_weight };

    let mut ts: Vec<TargetVotes> = Vec::new();
    let total: usize = targets.len();
    let mut c: usize = 0;
    while c < total
        invariant
            c <= total,
            total == targets@.len(),
            ts@ == targets@.take(c as int),
        decreases total - c,
    {
        ts.push(targets[c]);
        proof {
            assert(ts@ =~= targets@.take(c as int + 1));
        }
        c = c + 1;
    }
    proof {
        assert(ts@ =~= targets@);
        assert(votes@.skip(0) =~= votes@);
        assert(votes@.take(0) =~= Seq::<UserVote>::empty());
    }

    let mut new_votes: Vec<UserVote> = Vec::new();
    let n: usize = votes.len();
    let mut i: usize = 0;
    while i < n
        invariant
            i <= n,
            n == votes@.len(),
            spec_reweight(ts@, votes@.skip(i as int), new_weight, quorum, is_blacklist)
                == spec_reweight(targets@, votes@, new_weight, quorum, is_blacklist),
            new_votes@ == votes@.take(i as int).map_values(remap),
            remap == (|v: UserVote| UserVote { target: v.target, weight: new_weight }),
        decreases n - i,
    {
        let ghost ts0 = ts@;
        let v: UserVote = votes[i];
        proof {
            assert(votes@.skip(i as int)[0] == v);
            assert(votes@.skip(i as int).drop_first() =~= votes@.skip(i as int + 1));
        }
        let (idx, fresh) = match find_target(&ts, v.target) {
            Some(j) => (j, false),
            None => {
                if ts.len() >= MAX_TARGET_RECORDS {
                    return Err(OracleError::TooManyTargets);
                }
                (ts.len(), true)
            },
        };
        if fresh {
            ts.push(TargetVotes::new(v.target));
        }
        let rec: TargetVotes = ts[idx];
        let tally: u64 = if is_blacklist {
            rec.blacklist_votes
        } else {
            rec.whitelist_votes
        };
        let reduced: u64 = match tally.checked_sub(v.weight) {
            Some(x) => x,
            None => { return Err(OracleError::MathUnderflow) },
        };
        let new_tally: u64 = match reduced.checked_add(new_weight) {
            Some(x) => x,
            None => { return Err(OracleError::MathOverflow) },
        };
        let bl: u64 = if is_blacklist {
            new_tally
        } else {
            rec.blacklist_votes
        };
        let wl: u64 = if is_blacklist {
            rec.whitelist_votes
        } else {
            new_tally
        };
        let flag: bool = should_blacklist(bl, wl, quorum);
        ts.set(
            idx,
            TargetVotes { target: rec.target, blacklist_votes: bl, whitelist_votes: wl,
                is_blacklisted: flag },
        );
        new_votes.push(UserVote { target: v.target, weight: new_weight });
        proof {
            assert(spec_reweight_step(ts0, v, new_weight, quorum, is_blacklist)
                == Ok::<Seq<TargetVotes>, OracleError>(ts@));
            assert(votes@.take(i as int + 1) =~= votes@.take(i as int).push(v));
            assert(votes@.take(i as int).push(v).map_values(remap) =~= votes@.take(
                i as int,
            ).map_values(remap).push(remap(v)));
            assert(new_votes@ == votes@.take(i as int + 1).map_values(remap));
        }
        i = i + 1;
    }
    proof {
        assert(votes@.skip(n as int) =~= Seq::<UserVote>::empty());
        assert(votes@.take(n as int) =~= votes@);
        assert(new_votes@ =~= remap_votes(votes@, new_weight));
    }
    Ok((ts, new_votes))
}

/// Re-synchronizes every outstanding vote of this user to `new_weight`: on
/// each voted target the old recorded weight leaves the tally, the new one
/// enters, the flag is re-evaluated, and the recorded weight is updated to
/// match.
pub fn apply_new_weight_to_votes(
    state: &mut OracleState,
    user_state: &mut UserState,
    new_weight: u64,
) -> (r: Result<(), OracleError>)
    requires
        targets_well_formed(old(state).targets@),
        user_well_formed(*old(user_state)),
    ensures
        r is Ok <==> spec_reweight_all(*old(state), *old(user_state), new_weight) is Ok,
        r matches Err(e) ==> spec_reweight_all(*old(state), *old(user_state), new_weight)
            == Err::<Seq<TargetVotes>, OracleError>(e) && *final(state) == *old(state)
            && *final(user_state) == *old(user_state),
        r is Ok ==> {
            &&& Ok::<Seq<TargetVotes>, OracleError>(final(state).targets@) == spec_reweight_all(
                *old(state),
                *old(user_state),
                new_weight,
            )
            &&& *final(state) == (OracleState { targets: final(state).targets, ..*old(state) })
            &&& final(user_state).blacklist_votes@ == remap_votes(
                old(user_state).blacklist_votes@,
                new_weight,
            )
            &&& final(user_state).whitelist_votes@ == remap_votes(
                old(user_state).whitelist_votes@,
                new_weight,
            )
            &&& *final(user_state) == (UserState {
                blacklist_votes: final(user_state).blacklist_votes,
                whitelist_votes: final(user_state).whitelist_votes,
                ..*old(user_state)
            })
            &&& targets_well_formed(final(state).targets@)
            &&& user_well_formed(*final(user_state))
        },
{
    proof {
        lemma_reweight_wf(
            old(state).targets@,
            old(user_state).blacklist_votes@,
            new_weight,
            old(state).quorum,
            true,
        );
    }
    let first = reweight_votes(
        &state.targets,
        &user_state.blacklist_votes,
        new_weight,
        state.quorum,
        true,
    );
    let (ts1, new_bl) = match first {
        Ok(p) => p,
        Err(e) => { return Err(e) },
    };
    proof {
        lemma_reweight_wf(
            ts1@,
            old(user_state).whitelist_votes@,
            new_weight,
            old(state).quorum,
            false,
        );
    }
    let second = reweight_votes(
        &ts1,
        &user_state.whitelist_votes,
        new_weight,
        state.quorum,
        false,
    );
    let (ts2, new_wl) = match second {
        Ok(p) => p,
        Err(e) => { return Err(e) },
    };
    state.targets = ts2;
    user_state.blacklist_votes = new_bl;
    user_state.whitelist_votes = new_wl;
    proof {
        assert forall|i: int, j: int|
            0 <= i < j < user_state.blacklist_votes@.len() implies #[trigger] user_state
            .blacklist_votes@[i].target != #[trigger] user_state.blacklist_votes@[j].target by {
            assert(old(user_state).blacklist_votes@[i].target != old(
                user_state,
            ).blacklist_votes@[j].target);
        }
        assert forall|i: int, j: int|
            0 <= i < j < user_state.whitelist_votes@.len() implies #[trigger] user_state
            .whitelist_votes@[i].target != #[trigger] user_state.whitelist_votes@[j].target by {
            assert(old(user_state).whitelist_votes@[i].target != old(
                user_state,
            ).whitelist_votes@[j].target);
        }
    }
    Ok(())
}

/// Narrows a wide unsigned intermediate into the signed domain.
fn to_i128(value: u128) -> (r: Result<i128, OracleError>)
    ensures
        r is Ok <==> value <= i128::MAX,
        r matches Ok(x) ==> x == value,
        r is Err ==> r->Err_0 == OracleError::MathOverflow,
{
    if value > i128::MAX as u128 {
        Err(OracleError::MathOverflow)
    } else {
        Ok(value as i128)
    }
}

/// Division truncating toward zero, for a positive divisor: the rounding
/// the aggregate update accepts.
pub open spec fn div_trunc(x: int, d: int) -> int
    recommends
        d > 0,
{
    if x >= 0 {
        x / d
    } else {
        -((-x) / d)
    }
}

/// The submitter's weight for a submission at `now`: the unlocked balance
/// after the lazy maturity check.
pub open spec fn spec_submit_w(s: OracleState, u: UserState, now: i64) -> u64 {
    spec_unlock(u, s, now).unlocked_tokens
}

/// Seconds since the oracle's last submission.
pub open spec fn spec_submit_eg(s: OracleState, now: i64) -> u64 {
    spec_time_diff(now, s.last_submission_time) as u64
}

/// Seconds since this user's last submission.
pub open spec fn spec_submit_eu(u: UserState, now: i64) -> u64 {
    spec_time_diff(now, u.last_submission_time) as u64
}

/// The aggregate weight aged to `now`.
pub open spec fn spec_submit_dq(s: OracleState, now: i64) -> int {
    spec_apply_decay(s.aggregated_weight, spec_submit_eg(s, now), s.half_life_seconds)
}

/// The user's previously recorded weight aged to `now`.
pub open spec fn spec_submit_uw(s: OracleState, u: UserState, now: i64) -> int {
    spec_apply_decay(u.weight as u128, spec_submit_eu(u, now), s.half_life_seconds)
}

/// The total weight after the update: the aged aggregate weight, minus the
/// user's aged stale weight, plus the user's current weight.
pub open spec fn spec_submit_new_q(s: OracleState, u: UserState, now: i64) -> int {
    spec_submit_dq(s, now) - spec_submit_uw(s, u, now) + spec_submit_w(s, u, now)
}

/// The running numerator after the update: the aged aggregate, with the
/// user's stale contribution retired (skipped when it aged to nothing) and
/// the new observation added at the current weight.
pub open spec fn spec_submit_numerator(s: OracleState, u: UserState, now: i64, v: i128) -> int {
    let m1 = s.aggregated_value * spec_submit_dq(s, now);
    let uw = spec_submit_uw(s, u, now);
    let m2 = if uw > 0 {
        m1 - u.last_submitted_price * uw
    } else {
        m1
    };
    m2 + v * spec_submit_w(s, u, now)
}

/// The new aggregate: the numerator over the new total weight, truncated
/// toward zero.
pub open spec fn spec_submit_new_p(s: OracleState, u: UserState, now: i64, v: i128) -> int {
    div_trunc(spec_submit_numerator(s, u, now, v), spec_submit_new_q(s, u, now))
}

/// The reward pool for one submission: the held balance scaled by the
/// reward rate in basis points.
pub open spec fn spec_submit_pool(s: OracleState, held_balance: u64) -> int {
    (held_balance * s.reward_bps) / (DENOMINATOR as int)
}

/// The reward owed for this submission.
pub open spec fn spec_submit_reward(s: OracleState, u: UserState, now: i64, held_balance: u64)
    -> int {
    spec_reward(
        spec_submit_pool(s, held_balance) as u128,
        spec_submit_w(s, u, now),
        spec_submit_eu(u, now),
        spec_submit_dq(s, now) as u128,
        s.alpha,
        s.half_life_seconds,
    )
}

/// Why a submission fails, if it does, in the order the steps run: a
/// blacklisted caller, no unlocked weight, then each checked arithmetic
/// step of the aggregation and reward formulas, the degenerate zero total
/// weight, and finally a reward the held balance cannot cover.
pub open spec fn spec_submit_err(
    s: OracleState,
    u: UserState,
    now: i64,
    v: i128,
    held_balance: u64,
) -> Option<OracleError> {
    if spec_is_blacklisted(s, u.owner) {
        Some(OracleError::AccountBlacklisted)
    } else if spec_submit_w(s, u, now) == 0 {
        Some(OracleError::NoUnlockedTokens)
    } else if !spec_apply_decay_ok(s.aggregated_weight, spec_submit_eg(s, now),
        s.half_life_seconds) {
        Some(OracleError::MathOverflow)
    } else if !spec_apply_decay_ok(u.weight as u128, spec_submit_eu(u, now),
        s.half_life_seconds) {
        Some(OracleError::MathOverflow)
    } else {
        let dq = spec_submit_dq(s, now);
        let uw = spec_submit_uw(s, u, now);
        let w = spec_submit_w(s, u, now);
        if dq > i128::MAX {
            Some(OracleError::MathOverflow)
        } else if uw > i128::MAX {
            Some(OracleError::MathOverflow)
        } else {
            let m1 = s.aggregated_value * dq;
            if m1 > i128::MAX || m1 < i128::MIN {
                Some(OracleError::MathOverflow)
            } else {
                let p2 = u.last_submitted_price * uw;
                if uw > 0 && (p2 > i128::MAX || p2 < i128::MIN) {
                    Some(OracleError::MathOverflow)
                } else {
                    let m2 = if uw > 0 {
                        m1 - p2
                    } else {
                        m1
                    };
                    if uw > 0 && (m2 > i128::MAX || m2 < i128::MIN) {
                        Some(OracleError::MathUnderflow)
                    } else if dq - uw < 0 {
                        Some(OracleError::MathUnderflow)
                    } else if dq - uw + w > u128::MAX {
                        Some(OracleError::MathOverflow)
                    } else if dq - uw + w == 0 {
                        Some(OracleError::ZeroWeightAfterUpdate)
                    } else {
                        let pv = v * w;
                        if pv > i128::MAX || pv < i128::MIN {
                            Some(OracleError::MathOverflow)
                        } else {
                            let m3 = m2 + pv;
                            if m3 > i128::MAX || m3 < i128::MIN {
                                Some(OracleError::MathOverflow)
                            } else if dq - uw + w > i128::MAX {
                                Some(OracleError::MathOverflow)
                            } else if !spec_reward_ok(
                                spec_submit_pool(s, held_balance) as u128,
                                w,
                                spec_submit_eu(u, now),
                                dq as u128,
                                s.alpha,
                                s.half_life_seconds,
                            ) {
                                Some(OracleError::MathOverflow)
                            } else if spec_submit_reward(s, u, now, held_balance)
                                > held_balance {
                                Some(OracleError::MathUnderflow)
                            } else {
                                None
                            }
                        }
                    }
                }
            }
        }
    }
}

/// Records a new observation: ages the aggregate and the caller's previous
/// contribution, retires the stale contribution, blends the new one in,
/// pays the activity reward out of the held balance, and appends a history
/// record. The returned report carries the reward the host must pay.
#[verifier::rlimit(100)]
#[verifier::spinoff_prover]
pub fn submit_value(
    state: &mut OracleState,
    user_state: &mut UserState,
    now: i64,
    new_value: i128,
    held_balance: u64,
) -> (r: Result<ValueSubmitted, OracleError>)
    requires
        oracle_well_formed(*old(state)),
        user_well_formed(*old(user_state)),
        user_funds_covered(*old(state), *old(user_state)),
    ensures
        r is Ok <==> spec_submit_err(*old(state), *old(user_state), now, new_value, held_balance)
            is None,
        r matches Err(e) ==> spec_submit_err(
            *old(state),
            *old(user_state),
            now,
            new_value,
            held_balance,
        ) == Some(e) && *final(state) == *old(state) && *final(user_state) == *old(user_state),
        r matches Ok(ev) ==> {
            let s0 = *old(state);
            let u0 = *old(user_state);
            let u1 = spec_unlock(u0, s0, now);
            let w = spec_submit_w(s0, u0, now);
            let new_p = spec_submit_new_p(s0, u0, now, new_value);
            let reward = spec_submit_reward(s0, u0, now, held_balance);
            &&& final(state).aggregated_value == new_p
            &&& final(state).latest_value == new_value
            &&& final(state).aggregated_weight == spec_submit_new_q(s0, u0, now)
            &&& final(state).aggregated_weight > 0
            &&& final(state).last_submission_time == now
            &&& final(state).last_timestamp == now
            &&& final(state).price_history@ == spec_push_history(
                s0.price_history@,
                PriceRecord {
                    timestamp: now,
                    aggregated_value: new_p as i128,
                    latest_value: new_value,
                },
            )
            &&& *final(state) == (OracleState {
                aggregated_value: final(state).aggregated_value,
                latest_value: final(state).latest_value,
                aggregated_weight: final(state).aggregated_weight,
                last_submission_time: now,
                last_timestamp: now,
                price_history: final(state).price_history,
                ..s0
            })
            &&& *final(user_state) == (UserState {
                locked_tokens: u1.locked_tokens,
                unlocked_tokens: u1.unlocked_tokens,
                last_submitted_price: new_value,
                weight: w,
                last_submission_time: now,
                last_operation_timestamp: now,
                ..u0
            })
            &&& ev == (ValueSubmitted {
                submitter: u0.owner,
                timestamp: now,
                submitted_value: new_value,
                aggregated_value: new_p as i128,
                weight: w,
                reward_lamports: reward as u64,
            })
            &&& reward <= held_balance
            &&& (spec_submit_eu(u0, now) == 0 ==> ev.reward_lamports == 0)
            &&& oracle_well_formed(*final(state))
            &&& user_well_formed(*final(user_state))
            &&& user_funds_covered(*final(state), *final(user_state))
        },
{
    if state.is_blacklisted(user_state.owner) {
        return Err(OracleError::AccountBlacklisted);
    }

    let (locked_now, unlocked_now) = unlock_tokens_if_possible(state, user_state, now);
    if unlocked_now == 0 {
        return Err(OracleError::NoUnlockedTokens);
    }
    let weight: u128 = unlocked_now as u128;

    let elapsed_global: u64 = time_difference(now, state.last_submission_time);
    let decayed_q: u128 = match apply_decay(
        state.aggregated_weight,
        elapsed_global,
        state.half_life_seconds,
    ) {
        Ok(x) => x,
        Err(e) => { return Err(e) },
    };

    let time_since_user: u64 = time_difference(now, user_state.last_submission_time);
    let user_weight_decayed: u128 = match apply_decay(
        user_state.weight as u128,
        time_since_user,
        state.half_life_seconds,
    ) {
        Ok(x) => x,
        Err(e) => { return Err(e) },
    };

    let decayed_q_i: i128 = match to_i128(decayed_q) {
        Ok(x) => x,
        Err(e) => { return Err(e) },
    };
    let user_weight_decayed_i: i128 = match to_i128(user_weight_decayed) {
        Ok(x) => x,
        Err(e) => { return Err(e) },
    };
    let weight_i: i128 = match to_i128(weight) {
        Ok(x) => x,
        Err(e) => { return Err(e) },
    };

    let mut numerator: i128 = match state.aggregated_value.checked_mul(decayed_q_i) {
        Some(x) => x,
        None => { return Err(OracleError::MathOverflow) },
    };
    if user_weight_decayed > 0 {
        let retired: i128 = match user_state.last_submitted_price.checked_mul(
            user_weight_decayed_i,
        ) {
            Some(x) => x,
            None => { return Err(OracleError::MathOverflow) },
        };
        numerator = match numerator.checked_sub(retired) {
            Some(x) => x,
            None => { return Err(OracleError::MathUnderflow) },
        };
    }

    let reduced_q: u128 = match decayed_q.checked_sub(user_weight_decayed) {
        Some(x) => x,
        None => { return Err(OracleError::MathUnderflow) },
    };
    let new_q: u128 = match reduced_q.checked_add(weight) {
        Some(x) => x,
        None => { return Err(OracleError::MathOverflow) },
    };
    if new_q == 0 {
        return Err(OracleError::ZeroWeightAfterUpdate);
    }

    let contribution: i128 = match new_value.checked_mul(weight_i) {
        Some(x) => x,
        None => { return Err(OracleError::MathOverflow) },
    };
    numerator = match numerator.checked_add(contribution) {
        Some(x) => x,
        None => { return Err(OracleError::MathOverflow) },
    };

    let new_q_i: i128 = match to_i128(new_q) {
        Ok(x) => x,
        Err(e) => { return Err(e) },
    };
    proof {
        if numerator >= 0 {
            vstd::arithmetic::div_mod::lemma_div_nonincreasing(numerator as int, new_q_i as int);
            vstd::arithmetic::div_mod::lemma_div_pos_is_pos(numerator as int, new_q_i as int);
        } else {
            vstd::arithmetic::div_mod::lemma_div_nonincreasing(
                -(numerator as int),
                new_q_i as int,
            );
            vstd::arithmetic::div_mod::lemma_div_pos_is_pos(
                -(numerator as int),
                new_q_i as int,
            );
        }
    }
    let new_p: i128 = match numerator.checked_div(new_q_i) {
        Some(x) => x,
        None => { return Err(OracleError::MathUnderflow) },
    };
    proof {
        assert(numerator as int == spec_submit_numerator(
            *old(state),
            *old(user_state),
            now,
            new_value,
        ));
        assert(new_q as int == spec_submit_new_q(*old(state), *old(user_state), now));
        let x: int = numerator as int;
        let d: int = new_q_i as int;
        assert(d > 0);
        if x == 0 {
            vstd::arithmetic::div_mod::lemma_basic_div(0, d);
            assert(div_trunc(x, d) == 0);
        } else if x > 0 {
            assert(div_trunc(x, d) == x / d);
        } else {
            assert(x * -1 == -x) by (nonlinear_arith);
            assert(new_p as int == ((x * -1) / d) * -1);
            assert(div_trunc(x, d) == -((-x) / d));
        }
        assert(new_p as int == div_trunc(numerator as int, new_q_i as int));
        assert(new_p as int == spec_submit_new_p(*old(state), *old(user_state), now, new_value));
    }

    proof {
        lemma_mul_upper_bound(
            held_balance as int,
            u64::MAX as int,
            state.reward_bps as int,
            u64::MAX as int,
        );
    }
    let scaled_balance: u128 = match (held_balance as u128).checked_mul(
        state.reward_bps as u128,
    ) {
        Some(x) => x,
        None => { return Err(OracleError::MathOverflow) },
    };
    let reward_pool: u128 = scaled_balance / (DENOMINATOR as u128);

    proof {
        assert(reward_pool as int == spec_submit_pool(*old(state), held_balance));
        assert(decayed_q as int == spec_submit_dq(*old(state), now));
    }
    let reward: u64 = match calculate_reward(
        reward_pool,
        unlocked_now,
        time_since_user,
        decayed_q,
        state.alpha,
        state.half_life_seconds,
    ) {
        Ok(x) => x,
        Err(e) => { return Err(e) },
    };
    proof {
        assert(reward as int == spec_submit_reward(
            *old(state),
            *old(user_state),
            now,
            held_balance,
        ));
    }

    if reward > 0 {
        match held_balance.checked_sub(reward) {
            Some(_) => {},
            None => { return Err(OracleError::MathUnderflow) },
        }
    }

    proof {
        lemma_unlock_preserves_sum(*old(user_state), *old(state), now);
    }

    state.aggregated_value = new_p;
    state.latest_value = new_value;
    state.aggregated_weight = new_q;
    state.last_submission_time = now;
    state.last_timestamp = now;

    user_state.locked_tokens = locked_now;
    user_state.unlocked_tokens = unlocked_now;
    user_state.last_submitted_price = new_value;
    user_state.weight = unlocked_now;
    user_state.last_submission_time = now;
    user_state.last_operation_timestamp = now;

    state.push_price_history(now, new_p, new_value);

    proof {
        let s0 = *old(state);
        let u0 = *old(user_state);
        let u1 = spec_unlock(u0, s0, now);
        assert(spec_submit_err(s0, u0, now, new_value, held_balance) is None);
        assert(state.aggregated_value == spec_submit_new_p(s0, u0, now, new_value));
        assert(state.aggregated_weight == spec_submit_new_q(s0, u0, now));
        assert(state.aggregated_weight > 0);
        assert(state.price_history@ == spec_push_history(
            s0.price_history@,
            PriceRecord {
                timestamp: now,
                aggregated_value: spec_submit_new_p(s0, u0, now, new_value) as i128,
                latest_value: new_value,
            },
        ));
        assert(*state == (OracleState {
            aggregated_value: state.aggregated_value,
            latest_value: state.latest_value,
            aggregated_weight: state.aggregated_weight,
            last_submission_time: now,
            last_timestamp: now,
            price_history: state.price_history,
            ..s0
        }));
        assert(*user_state == (UserState {
            locked_tokens: u1.locked_tokens,
            unlocked_tokens: u1.unlocked_tokens,
            last_submitted_price: new_value,
            weight: spec_submit_w(s0, u0, now),
            last_submission_time: now,
            last_operation_timestamp: now,
            ..u0
        }));
        assert(reward as int == spec_submit_reward(s0, u0, now, held_balance));
        assert(reward <= held_balance);
        assert(oracle_well_formed(*state));
        assert(user_well_formed(*user_state));
        assert(user_funds_covered(*state, *user_state));
    }

    Ok(
        ValueSubmitted {
            submitter: user_state.owner,
            timestamp: now,
            submitted_value: new_value,
            aggregated_value: new_p,
            weight: unlocked_now,
            reward_lamports: reward,
        },
    )
}

/// Why a withdrawal fails, if it does, in the order the checks run: a zero
/// amount, too little unlocked balance, an unrepresentable cooldown
/// deadline, a cooldown still running, a running total below the amount,
/// or a failing vote re-synchronization.
pub open spec fn spec_withdraw_err(
    s: OracleState,
    u: UserState,
    now: i64,
    amount: u64,
) -> Option<OracleError> {
    if amount == 0 {
        Some(OracleError::AmountMustBePositive)
    } else {
        let u1 = spec_unlock(u, s, now);
        if u1.unlocked_tokens < amount {
            Some(OracleError::InsufficientUnlockedTokens)
        } else {
            let ready: int = u.last_operation_timestamp + spec_widen_period(
                s.withdrawal_locking_period,
            );
            if ready > i64::MAX || ready < i64::MIN {
                Some(OracleError::MathOverflow)
            } else if now < ready {
                Some(OracleError::WithdrawalLocked)
            } else if s.total_deposited_tokens < amount {
                Some(OracleError::MathUnderflow)
            } else {
                match spec_reweight_all(s, u, (u1.unlocked_tokens - amount) as u64) {
                    Result::Err(e) => Some(e),
                    Result::Ok(ts) => None,
                }
            }
        }
    }
}

/// Withdraws `amount` matured tokens: checks the cooldown measured from the
/// user's last mutating operation, re-synchronizes the user's outstanding
/// votes to the reduced weight, and reports the transfer the host must make
/// out of the vault. The cooldown clock itself is not restarted by a
/// withdrawal.
pub fn withdraw_tokens(
    state: &mut OracleState,
    user_state: &mut UserState,
    now: i64,
    amount: u64,
) -> (r: Result<TokenWithdrawn, OracleError>)
    requires
        oracle_well_formed(*old(state)),
        user_well_formed(*old(user_state)),
        user_funds_covered(*old(state), *old(user_state)),
    ensures
        r is Ok <==> spec_withdraw_err(*old(state), *old(user_state), now, amount) is None,
        r matches Err(e) ==> spec_withdraw_err(*old(state), *old(user_state), now, amount)
            == Some(e) && *final(state) == *old(state) && *final(user_state) == *old(user_state),
        r is Ok ==> {
            let u1 = spec_unlock(*old(user_state), *old(state), now);
            let new_weight = (u1.unlocked_tokens - amount) as u64;
            &&& Ok::<Seq<TargetVotes>, OracleError>(final(state).targets@) == spec_reweight_all(
                *old(state),
                *old(user_state),
                new_weight,
            )
            &&& *final(state) == (OracleState {
                targets: final(state).targets,
                total_deposited_tokens: (old(state).total_deposited_tokens - amount) as u64,
                last_timestamp: now,
                ..*old(state)
            })
            &&& final(user_state).locked_tokens == u1.locked_tokens
            &&& final(user_state).unlocked_tokens == new_weight
            &&& final(user_state).blacklist_votes@ == remap_votes(
                old(user_state).blacklist_votes@,
                new_weight,
            )
            &&& final(user_state).whitelist_votes@ == remap_votes(
                old(user_state).whitelist_votes@,
                new_weight,
            )
            &&& *final(user_state) == (UserState {
                locked_tokens: u1.locked_tokens,
                unlocked_tokens: new_weight,
                blacklist_votes: final(user_state).blacklist_votes,
                whitelist_votes: final(user_state).whitelist_votes,
                ..*old(user_state)
            })
            &&& oracle_well_formed(*final(state))
            &&& user_well_formed(*final(user_state))
            &&& user_funds_covered(*final(state), *final(user_state))
        },
        r matches Ok(ev) ==> ev == (TokenWithdrawn { user: old(user_state).owner, amount }),
{
    if amount == 0 {
        return Err(OracleError::AmountMustBePositive);
    }
    let (locked_now, unlocked_now) = unlock_tokens_if_possible(state, user_state, now);
    if unlocked_now < amount {
        return Err(OracleError::InsufficientUnlockedTokens);
    }
    let ready: i64 = match user_state.last_operation_timestamp.checked_add(
        widen_period(state.withdrawal_locking_period),
    ) {
        Some(t) => t,
        None => { return Err(OracleError::MathOverflow) },
    };
    if now < ready {
        return Err(OracleError::WithdrawalLocked);
    }
    let new_unlocked: u64 = unlocked_now - amount;
    let new_total: u64 = match state.total_deposited_tokens.checked_sub(amount) {
        Some(t) => t,
        None => { return Err(OracleError::MathUnderflow) },
    };

    proof {
        lemma_unlock_preserves_sum(*old(user_state), *old(state), now);
    }
    match apply_new_weight_to_votes(state, user_state, new_unlocked) {
        Ok(()) => {},
        Err(e) => { return Err(e) },
    }

    state.total_deposited_tokens = new_total;
    state.last_timestamp = now;
    user_state.locked_tokens = locked_now;
    user_state.unlocked_tokens = new_unlocked;

    Ok(TokenWithdrawn { user: user_state.owner, amount })
}

/// Why a weight refresh fails, if it does: no unlocked weight, or a failing
/// re-synchronization step.
pub open spec fn spec_update_weights_err(s: OracleState, u: UserState, now: i64) -> Option<
    OracleError,
> {
    let u1 = spec_unlock(u, s, now);
    if u1.unlocked_tokens == 0 {
        Some(OracleError::NoUnlockedTokens)
    } else {
        match spec_reweight_all(s, u, u1.unlocked_tokens) {
            Result::Err(e) => Some(e),
            Result::Ok(ts) => None,
        }
    }
}

/// Re-synchronizes all of the caller's outstanding votes to the unlocked
/// weight in effect now. This is the explicit refresh call; a withdrawal
/// performs the same re-synchronization on its own.
pub fn update_user_vote_weights(
    state: &mut OracleState,
    user_state: &mut UserState,
    now: i64,
) -> (r: Result<(), OracleError>)
    requires
        oracle_well_formed(*old(state)),
        user_well_formed(*old(user_state)),
        user_funds_covered(*old(state), *old(user_state)),
    ensures
        r is Ok <==> spec_update_weights_err(*old(state), *old(user_state), now) is None,
        r matches Err(e) ==> spec_update_weights_err(*old(state), *old(user_state), now)
            == Some(e) && *final(state) == *old(state) && *final(user_state) == *old(user_state),
        r is Ok ==> {
            let u1 = spec_unlock(*old(user_state), *old(state), now);
            let new_weight = u1.unlocked_tokens;
            &&& Ok::<Seq<TargetVotes>, OracleError>(final(state).targets@) == spec_reweight_all(
                *old(state),
                *old(user_state),
                new_weight,
            )
            &&& *final(state) == (OracleState {
                targets: final(state).targets,
                last_timestamp: now,
                ..*old(state)
            })
            &&& final(user_state).blacklist_votes@ == remap_votes(
                old(user_state).blacklist_votes@,
                new_weight,
            )
            &&& final(user_state).whitelist_votes@ == remap_votes(
                old(user_state).whitelist_votes@,
                new_weight,
            )
            &&& *final(user_state) == (UserState {
                locked_tokens: u1.locked_tokens,
                unlocked_tokens: u1.unlocked_tokens,
                last_operation_timestamp: now,
                blacklist_votes: final(user_state).blacklist_votes,
                whitelist_votes: final(user_state).whitelist_votes,
                ..*old(user_state)
            })
            &&& oracle_well_formed(*final(state))
            &&& user_well_formed(*final(user_state))
            &&& user_funds_covered(*final(state), *final(user_state))
        },
{
    let (locked_now, unlocked_now) = unlock_tokens_if_possible(state, user_state, now);
    if unlocked_now == 0 {
        return Err(OracleError::NoUnlockedTokens);
    }
    proof {
        lemma_unlock_preserves_sum(*old(user_state), *old(state), now);
    }
    match apply_new_weight_to_votes(state, user_state, unlocked_now) {
        Ok(()) => {},
        Err(e) => { return Err(e) },
    }

    state.last_timestamp = now;
    user_state.locked_tokens = locked_now;
    user_state.unlocked_tokens = unlocked_now;
    user_state.last_operation_timestamp = now;

    Ok(())
}

/// Casts a blacklist vote on `target` with the caller's current unlocked
/// weight.
pub fn vote_blacklist(
    state: &mut OracleState,
    user_state: &mut UserState,
    now: i64,
    target: AccountId,
) -> (r: Result<(Voted, Option<BlacklistStatusChanged>), OracleError>)
    requires
        oracle_well_formed(*old(state)),
        user_well_formed(*old(user_state)),
        user_funds_covered(*old(state), *old(user_state)),
    ensures
        spec_vote_post(
            *old(state),
            *old(user_state),
            *final(state),
            *final(user_state),
            now,
            target,
            true,
            r,
        ),
{
    process_vote(state, user_state, now, target, VoteKind::Blacklist)
}

/// Casts a whitelist vote on `target` with the caller's current unlocked
/// weight.
pub fn vote_whitelist(
    state: &mut OracleState,
    user_state: &mut UserState,
    now: i64,
    target: AccountId,
) -> (r: Result<(Voted, Option<BlacklistStatusChanged>), OracleError>)
    requires
        oracle_well_formed(*old(state)),
        user_well_formed(*old(user_state)),
        user_funds_covered(*old(state), *old(user_state)),
    ensures
        spec_vote_post(
            *old(state),
            *old(user_state),
            *final(state),
            *final(user_state),
            now,
            target,
            false,
            r,
        ),
{
    process_vote(state, user_state, now, target, VoteKind::Whitelist)
}

} // verus!
