//! The oracle's data model: the per-oracle record, the per-participant
//! record, their well-formedness invariants, and the small state helpers
//! every operation shares (lazy lock maturity, clamped time arithmetic,
//! target lookup, the blacklist rule, the bounded history buffer).

use vstd::prelude::*;

verus! {

/// An authenticated identity: a participant, an oracle instance or a
/// governance target. The host attributes every call to exactly one such
/// identity; the core only ever compares them for equality.
pub type AccountId = u64;

/// Capacity of the price history ring buffer.
pub const MAX_HISTORY_ENTRIES: usize = 128;

/// Capacity of the oracle-wide governance target list.
pub const MAX_TARGET_RECORDS: usize = 64;

/// Capacity of each per-user vote list.
pub const MAX_USER_VOTES: usize = 64;

/// Longest accepted oracle name, in bytes.
pub const MAX_NAME_LEN: usize = 64;

/// Longest accepted oracle description, in bytes.
pub const MAX_DESCRIPTION_LEN: usize = 256;

/// One entry of the price history: the aggregate and the raw submission at
/// one timestamp.
#[derive(Clone, Copy, Debug, PartialEq, Eq, Structural)]
pub struct PriceRecord {
    pub timestamp: i64,
    pub aggregated_value: i128,
    pub latest_value: i128,
}

/// One governance target with its two running vote tallies and its flag.
#[derive(Clone, Copy, Debug, PartialEq, Eq, Structural)]
pub struct TargetVotes {
    pub target: AccountId,
    pub blacklist_votes: u64,
    pub whitelist_votes: u64,
    pub is_blacklisted: bool,
}

impl TargetVotes {
    /// A fresh target record: no votes, not blacklisted.
    pub fn new(target: AccountId) -> (r: TargetVotes)
        ensures
            r == (TargetVotes {
                target,
                blacklist_votes: 0,
                whitelist_votes: 0,
                is_blacklisted: false,
            }),
    {
        TargetVotes { target, blacklist_votes: 0, whitelist_votes: 0, is_blacklisted: false }
    }
}

/// One vote a user has cast: the target and the weight committed to it,
/// kept so the weight can be re-synchronized when the user's stake changes.
#[derive(Clone, Copy, Debug, PartialEq, Eq, Structural)]
pub struct UserVote {
    pub target: AccountId,
    pub weight: u64,
}

/// Immutable policy and running aggregate of one oracle instance.
pub struct OracleState {
    pub authority: AccountId,
    pub weight_mint: AccountId,
    /// Reward rate per submission, in basis points of the held balance
    /// against `DENOMINATOR`.
    pub reward_bps: u64,
    pub half_life_seconds: u64,
    /// Combined vote weight a target needs before its flag can be set.
    pub quorum: u64,
    pub deposit_locking_period: u64,
    pub withdrawal_locking_period: u64,
    /// Reward-curve coefficient.
    pub alpha: u64,
    pub aggregated_value: i128,
    pub latest_value: i128,
    /// Decayed sum of all active submission weights.
    pub aggregated_weight: u128,
    pub last_submission_time: i64,
    pub last_timestamp: i64,
    /// Sum of all locked and unlocked balances across users.
    pub total_deposited_tokens: u64,
    pub name: Vec<u8>,
    pub description: Vec<u8>,
    pub price_history: Vec<PriceRecord>,
    pub targets: Vec<TargetVotes>,
}

/// Per-(oracle, participant) record.
pub struct UserState {
    pub oracle: AccountId,
    pub owner: AccountId,
    /// Deposited tokens still maturing.
    pub locked_tokens: u64,
    /// Matured tokens: usable as weight, withdrawable.
    pub unlocked_tokens: u64,
    /// Start of the current lock batch; every deposit restarts it for the
    /// whole locked balance.
    pub deposit_timestamp: i64,
    pub last_operation_timestamp: i64,
    pub last_submission_time: i64,
    pub last_submitted_price: i128,
    /// The unlocked amount in effect at the last submission: what gets
    /// retired from the aggregate on the next one.
    pub weight: u64,
    pub initialized: bool,
    pub blacklist_votes: Vec<UserVote>,
    pub whitelist_votes: Vec<UserVote>,
}

impl UserState {
    /// A zeroed record, as the host storage hands it out before first use.
    pub fn new() -> (u: UserState)
        ensures
            u.oracle == 0,
            u.owner == 0,
            u.locked_tokens == 0,
            u.unlocked_tokens == 0,
            u.deposit_timestamp == 0,
            u.last_operation_timestamp == 0,
            u.last_submission_time == 0,
            u.last_submitted_price == 0,
            u.weight == 0,
            !u.initialized,
            u.blacklist_votes@ == Seq::<UserVote>::empty(),
            u.whitelist_votes@ == Seq::<UserVote>::empty(),
    {
        UserState {
            oracle: 0,
            owner: 0,
            locked_tokens: 0,
            unlocked_tokens: 0,
            deposit_timestamp: 0,
            last_operation_timestamp: 0,
            last_submission_time: 0,
            last_submitted_price: 0,
            weight: 0,
            initialized: false,
            blacklist_votes: Vec::new(),
            whitelist_votes: Vec::new(),
        }
    }
}

/// Parameters fixed at initialization, immutable afterwards.
pub struct InitializeOracleParams {
    pub name: Vec<u8>,
    pub description: Vec<u8>,
    pub reward_bps: u64,
    pub half_life_seconds: u64,
    pub quorum: u64,
    pub deposit_locking_period: u64,
    pub withdrawal_locking_period: u64,
    pub alpha: u64,
}

/// The target list holds at most its capacity and never two records for
/// one target.
pub open spec fn targets_well_formed(ts: Seq<TargetVotes>) -> bool {
    ts.len() <= MAX_TARGET_RECORDS && (forall|i: int, j: int|
        0 <= i < j < ts.len() ==> #[trigger] ts[i].target != #[trigger] ts[j].target)
}

/// A vote list holds at most its capacity and at most one entry per target.
pub open spec fn votes_well_formed(vs: Seq<UserVote>) -> bool {
    vs.len() <= MAX_USER_VOTES && (forall|i: int, j: int|
        0 <= i < j < vs.len() ==> #[trigger] vs[i].target != #[trigger] vs[j].target)
}

/// The oracle record's invariant: bounded name, description, history and
/// target list, a reward rate of at most 100%, distinct targets.
pub open spec fn oracle_well_formed(s: OracleState) -> bool {
    &&& targets_well_formed(s.targets@)
    &&& s.price_history@.len() <= MAX_HISTORY_ENTRIES
    &&& 1 <= s.name@.len() <= MAX_NAME_LEN
    &&& s.description@.len() <= MAX_DESCRIPTION_LEN
    &&& s.reward_bps <= crate::decay::DENOMINATOR
}

/// The user record's invariant: both vote lists bounded, one entry per
/// target in each.
pub open spec fn user_well_formed(u: UserState) -> bool {
    votes_well_formed(u.blacklist_votes@) && votes_well_formed(u.whitelist_votes@)
}

/// A user's tokens are covered by the oracle's running total, so moving the
/// whole locked balance into the unlocked one can never saturate.
pub open spec fn user_funds_covered(s: OracleState, u: UserState) -> bool {
    u.locked_tokens + u.unlocked_tokens <= s.total_deposited_tokens
}

/// Elapsed seconds between two clock readings; a clock that did not move
/// forward counts as no elapsed time, never as negative.
pub open spec fn spec_time_diff(now: i64, previous: i64) -> int {
    if now <= previous {
        0
    } else {
        now - previous
    }
}

/// Computes the elapsed seconds between two clock readings.
pub fn time_difference(now: i64, previous: i64) -> (r: u64)
    ensures
        r == spec_time_diff(now, previous),
{
    if now <= previous {
        0
    } else {
        let wide: i128 = (now as i128) - (previous as i128);
        wide as u64
    }
}

/// A lock period is stored unsigned but added to signed timestamps; the
/// addition reads it back with the sign bit kept, exactly as the stored
/// bits come out.
pub open spec fn spec_widen_period(p: u64) -> int {
    if p <= i64::MAX {
        p as int
    } else {
        p - 0x1_0000_0000_0000_0000
    }
}

/// Reads a stored lock period as a signed offset, bits unchanged.
pub fn widen_period(p: u64) -> (r: i64)
    ensures
        r == spec_widen_period(p),
{
    if p <= i64::MAX as u64 {
        p as i64
    } else {
        let rest: u64 = p - 0x8000_0000_0000_0000;
        (rest as i64) + i64::MIN
    }
}

/// Signed addition clamped to the `i64` range.
pub open spec fn spec_sat_add_i64(a: int, b: int) -> int {
    if a + b > i64::MAX {
        i64::MAX as int
    } else if a + b < i64::MIN {
        i64::MIN as int
    } else {
        a + b
    }
}

fn sat_add_i64(a: i64, b: i64) -> (r: i64)
    ensures
        r == spec_sat_add_i64(a as int, b as int),
{
    if b >= 0 {
        if a > i64::MAX - b {
            i64::MAX
        } else {
            a + b
        }
    } else {
        if a < i64::MIN - b {
            i64::MIN
        } else {
            a + b
        }
    }
}

/// Unsigned addition clamped to the `u64` range.
pub open spec fn spec_sat_add_u64(a: int, b: int) -> int {
    if a + b > u64::MAX {
        u64::MAX as int
    } else {
        a + b
    }
}

/// The user record after the lazy maturity check at time `now`: once the
/// deposit locking period has passed, the whole locked balance moves into
/// the unlocked one.
pub open spec fn spec_unlock(u: UserState, s: OracleState, now: i64) -> UserState {
    if u.locked_tokens == 0 {
        u
    } else {
        let ready: int = spec_sat_add_i64(
            u.deposit_timestamp as int,
            spec_widen_period(s.deposit_locking_period),
        );
        if now >= ready {
            UserState {
                locked_tokens: 0,
                unlocked_tokens: spec_sat_add_u64(
                    u.unlocked_tokens as int,
                    u.locked_tokens as int,
                ) as u64,
                ..u
            }
        } else {
            u
        }
    }
}

/// Evaluates the lazy maturity check and returns the user's locked and
/// unlocked balances as they stand at time `now`. Every mutating operation
/// runs this first; the caller commits the result only if the whole
/// operation succeeds.
pub fn unlock_tokens_if_possible(state: &OracleState, user_state: &UserState, now: i64) -> (r: (
    u64,
    u64,
))
    ensures
        r.0 == spec_unlock(*user_state, *state, now).locked_tokens,
        r.1 == spec_unlock(*user_state, *state, now).unlocked_tokens,
{
    if user_state.locked_tokens == 0 {
        return (user_state.locked_tokens, user_state.unlocked_tokens);
    }
    let ready: i64 = sat_add_i64(
        user_state.deposit_timestamp,
        widen_period(state.deposit_locking_period),
    );
    if now >= ready {
        (0, user_state.unlocked_tokens.saturating_add(user_state.locked_tokens))
    } else {
        (user_state.locked_tokens, user_state.unlocked_tokens)
    }
}

/// Index of the first record for `target`, or `-1` when there is none.
pub open spec fn spec_target_index(ts: Seq<TargetVotes>, target: AccountId) -> int
    decreases ts.len(),
{
    if ts.len() == 0 {
        -1
    } else if ts[0].target == target {
        0
    } else {
        let rest: int = spec_target_index(ts.drop_first(), target);
        if rest == -1 {
            -1
        } else {
            rest + 1
        }
    }
}

/// What the first-match index means: `-1` exactly when no record matches,
/// otherwise the matching position with no match before it.
pub proof fn lemma_target_index_spec(ts: Seq<TargetVotes>, target: AccountId)
    ensures
        spec_target_index(ts, target) == -1 ==> forall|j: int|
            0 <= j < ts.len() ==> ts[j].target != target,
        spec_target_index(ts, target) != -1 ==> {
            let i = spec_target_index(ts, target);
            &&& 0 <= i < ts.len()
            &&& ts[i].target == target
            &&& forall|j: int| 0 <= j < i ==> ts[j].target != target
        },
    decreases ts.len(),
{
    if ts.len() != 0 && ts[0].target != target {
        let rest = ts.drop_first();
        lemma_target_index_spec(rest, target);
        assert(forall|j: int| 0 <= j < rest.len() ==> rest[j] == ts[j + 1]);
        let r = spec_target_index(rest, target);
        if r == -1 {
            assert forall|j: int| 0 <= j < ts.len() implies ts[j].target != target by {
                if j > 0 {
                    assert(rest[j - 1] == ts[j]);
                }
            }
        } else {
            assert(ts[r + 1].target == target);
            assert forall|j: int| 0 <= j < r + 1 implies ts[j].target != target by {
                if j > 0 {
                    assert(rest[j - 1] == ts[j]);
                }
            }
        }
    }
}

/// Finds the record for `target`, returning the first matching index.
pub fn find_target(targets: &Vec<TargetVotes>, target: AccountId) -> (r: Option<usize>)
    ensures
        r matches Some(i) ==> i < targets@.len() && targets@[i as int].target == target && (
        forall|j: int| 0 <= j < i ==> targets@[j].target != target) && spec_target_index(
            targets@,
            target,
        ) == i,
        r is None ==> (forall|j: int| 0 <= j < targets@.len() ==> targets@[j].target != target)
            && spec_target_index(targets@, target) == -1,
{
    proof {
        lemma_target_index_spec(targets@, target);
    }
    let n: usize = targets.len();
    let mut i: usize = 0;
    while i < n
        invariant
            n == targets@.len(),
            i <= n,
            forall|j: int| 0 <= j < i ==> targets@[j].target != target,
        decreases n - i,
    {
        if targets[i].target == target {
            proof {
                lemma_target_index_spec(targets@, target);
                let ti = spec_target_index(targets@, target);
                if ti != i as int {
                    if ti == -1 {
                        assert(targets@[i as int].target == target);
                    } else if ti < i as int {
                        assert(targets@[ti].target == target);
                    } else {
                        assert(targets@[i as int].target != target);
                    }
                }
            }
            return Some(i);
        }
        i = i + 1;
    }
    None
}

/// Whether a vote list already holds an entry for `target`.
pub open spec fn spec_has_vote(vs: Seq<UserVote>, target: AccountId) -> bool {
    exists|j: int| 0 <= j < vs.len() && #[trigger] vs[j].target == target
}

/// Scans a vote list for an entry on `target`.
pub fn has_vote(votes: &Vec<UserVote>, target: AccountId) -> (r: bool)
    ensures
        r == spec_has_vote(votes@, target),
{
    let n: usize = votes.len();
    let mut i: usize = 0;
    while i < n
        invariant
            n == votes@.len(),
            i <= n,
            forall|j: int| 0 <= j < i ==> #[trigger] votes@[j].target != target,
        decreases n - i,
    {
        if votes[i].target == target {
            return true;
        }
        i = i + 1;
    }
    false
}

/// Whether `target` is currently flagged blacklisted somewhere in the list.
pub open spec fn spec_is_blacklisted(s: OracleState, target: AccountId) -> bool {
    exists|i: int|
        0 <= i < s.targets@.len() && #[trigger] s.targets@[i].target == target
            && s.targets@[i].is_blacklisted
}

impl OracleState {
    /// Whether `target` is currently flagged blacklisted. An identity with
    /// no target record is not blacklisted.
    pub fn is_blacklisted(&self, target: AccountId) -> (r: bool)
        requires
            targets_well_formed(self.targets@),
        ensures
            r == spec_is_blacklisted(*self, target),
    {
        match find_target(&self.targets, target) {
            Some(i) => self.targets[i].is_blacklisted,
            None => false,
        }
    }

    /// Appends a history record, evicting the oldest entry when the buffer
    /// is at capacity. Only the history changes.
    pub fn push_price_history(
        &mut self,
        timestamp: i64,
        aggregated_value: i128,
        latest_value: i128,
    )
        requires
            old(self).price_history@.len() <= MAX_HISTORY_ENTRIES,
        ensures
            final(self).price_history@ == spec_push_history(
                old(self).price_history@,
                PriceRecord { timestamp, aggregated_value, latest_value },
            ),
            final(self).price_history@.len() <= MAX_HISTORY_ENTRIES,
            *final(self) == (OracleState { price_history: final(self).price_history, ..*old(self) }),
    {
        if self.price_history.len() == MAX_HISTORY_ENTRIES {
            self.price_history.remove(0);
        }
        self.price_history.push(PriceRecord { timestamp, aggregated_value, latest_value });
    }
}

/// The history after an append: a plain push while below capacity, the
/// oldest record dropped first once full.
pub open spec fn spec_push_history(h: Seq<PriceRecord>, rec: PriceRecord) -> Seq<PriceRecord> {
    if h.len() < MAX_HISTORY_ENTRIES {
        h.push(rec)
    } else {
        h.subrange(1, h.len() as int).push(rec)
    }
}

/// The maturity transition moves tokens between the two balances but never
/// changes their sum while the sum fits, which `user_funds_covered` grants.
pub proof fn lemma_unlock_preserves_sum(u: UserState, s: OracleState, now: i64)
    requires
        u.locked_tokens + u.unlocked_tokens <= u64::MAX,
    ensures
        spec_unlock(u, s, now).locked_tokens + spec_unlock(u, s, now).unlocked_tokens
            == u.locked_tokens + u.unlocked_tokens,
{
}

/// The status rule: a target is blacklisted exactly when blacklist weight
/// strictly exceeds whitelist weight and their combined weight strictly
/// exceeds the quorum.
pub open spec fn spec_should_blacklist(bl: u64, wl: u64, quorum: u64) -> bool {
    bl > wl && spec_sat_add_u64(bl as int, wl as int) > quorum
}

/// Evaluates the status rule on a pair of tallies.
pub fn should_blacklist(bl: u64, wl: u64, quorum: u64) -> (r: bool)
    ensures
        r == spec_should_blacklist(bl, wl, quorum),
{
    let total: u64 = bl.saturating_add(wl);
    bl > wl && total > quorum
}

} // verus!
