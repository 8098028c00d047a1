//! Laws that relate several operations, stated over the same spec
//! functions the operations' contracts use and proved once for every
//! input.

use vstd::prelude::*;
use vstd::arithmetic::div_mod::lemma_div_multiples_vanish;
use vstd::arithmetic::mul::lemma_mul_is_commutative;

use crate::ops::{
    div_trunc, remap_votes, spec_deposit_err, spec_deposit_oracle, spec_deposit_user,
    spec_reweight, spec_reweight_all, spec_reweight_step, spec_submit_dq, spec_submit_eg, spec_submit_err,
    spec_submit_eu, spec_submit_new_p, spec_submit_new_q, spec_submit_numerator,
    spec_submit_uw, spec_submit_w, spec_vote_err, spec_vote_list, spec_vote_new_record,
    spec_vote_targets,
};
use crate::errors::OracleError;
use crate::state::{
    lemma_target_index_spec, lemma_unlock_preserves_sum, spec_has_vote, spec_sat_add_i64,
    spec_should_blacklist, spec_target_index, spec_time_diff, spec_unlock, spec_widen_period,
    targets_well_formed, user_funds_covered, AccountId, OracleState, TargetVotes, UserState,
    UserVote,
};

verus! {

/// A deposit's lock batch matures in full, exactly once: after a deposit
/// at `t1`, the first operation at or past the end of the deposit locking
/// period finds the whole locked balance — everything held before the
/// deposit plus the deposited amount — moved into the unlocked balance,
/// and any later maturity check changes nothing more.
pub proof fn lemma_deposit_then_matures(
    s: OracleState,
    u: UserState,
    oracle: AccountId,
    owner: AccountId,
    t1: i64,
    amount: u64,
    now: i64,
)
    requires
        user_funds_covered(s, u),
        spec_deposit_err(s, u, oracle, owner, t1, amount) is None,
        now >= spec_sat_add_i64(t1 as int, spec_widen_period(s.deposit_locking_period)),
    ensures
        ({
            let s1 = spec_deposit_oracle(s, t1, amount);
            let u1 = spec_deposit_user(s, u, oracle, owner, t1, amount);
            let u2 = spec_unlock(u1, s1, now);
            &&& u2.locked_tokens == 0
            &&& u2.unlocked_tokens == u.locked_tokens + u.unlocked_tokens + amount
            &&& forall|later: i64| #[trigger] spec_unlock(u2, s1, later) == u2
        }),
{
    lemma_unlock_preserves_sum(u, s, t1);
    let s1 = spec_deposit_oracle(s, t1, amount);
    let u1 = spec_deposit_user(s, u, oracle, owner, t1, amount);
    assert(u1.locked_tokens + u1.unlocked_tokens <= s1.total_deposited_tokens);
    let u2 = spec_unlock(u1, s1, now);
    assert(u2.locked_tokens == 0);
    assert forall|later: i64| #[trigger] spec_unlock(u2, s1, later) == u2 by {
        assert(u2.locked_tokens == 0);
    }
}

/// Submitting the same value again in immediate succession, while the
/// user's recorded weight still equals the unlocked weight in effect,
/// leaves both the aggregate value and the aggregate weight unchanged:
/// the user's own contribution is retired in full and re-added at equal
/// weight, and the division is exact.
pub proof fn lemma_resubmit_keeps_aggregate(
    s: OracleState,
    u: UserState,
    now: i64,
    v: i128,
    held_balance: u64,
)
    requires
        spec_time_diff(now, s.last_submission_time) == 0,
        spec_time_diff(now, u.last_submission_time) == 0,
        u.weight == spec_submit_w(s, u, now),
        u.last_submitted_price == v,
        spec_submit_err(s, u, now, v, held_balance) is None,
    ensures
        spec_submit_new_q(s, u, now) == s.aggregated_weight,
        spec_submit_new_p(s, u, now, v) == s.aggregated_value,
{
    let w = spec_submit_w(s, u, now) as int;
    let q = s.aggregated_weight as int;
    let p = s.aggregated_value as int;
    assert(w > 0);
    assert(spec_submit_eg(s, now) == 0);
    assert(spec_submit_eu(u, now) == 0);
    assert(spec_submit_dq(s, now) == q);
    assert(spec_submit_uw(s, u, now) == w);
    assert(spec_submit_new_q(s, u, now) == q);
    assert(q > 0);
    let m = spec_submit_numerator(s, u, now, v);
    assert(m == p * q);
    if p >= 0 {
        lemma_mul_is_commutative(p, q);
        lemma_div_multiples_vanish(p, q);
        assert(div_trunc(p * q, q) == p);
    } else {
        assert(p * q < 0 && -(p * q) == (-p) * q) by (nonlinear_arith)
            requires p < 0 && q > 0;
        lemma_mul_is_commutative(-p, q);
        lemma_div_multiples_vanish(-p, q);
        assert(div_trunc(p * q, q) == p);
    }
}

/// The weight one user currently has recorded on `target` in one vote
/// list.
pub open spec fn user_list_contrib(vs: Seq<UserVote>, target: AccountId) -> int
    decreases vs.len(),
{
    if vs.len() == 0 {
        0
    } else {
        (if vs[0].target == target {
            vs[0].weight as int
        } else {
            0
        }) + user_list_contrib(vs.drop_first(), target)
    }
}

/// The combined weight all users currently have recorded on `target` in
/// the chosen kind of list.
pub open spec fn users_contrib(users: Seq<UserState>, target: AccountId, is_blacklist: bool)
    -> int
    decreases users.len(),
{
    if users.len() == 0 {
        0
    } else {
        user_list_contrib(spec_vote_list(users[0], is_blacklist), target) + users_contrib(
            users.drop_first(),
            target,
            is_blacklist,
        )
    }
}

/// Every tally on the target list equals the sum of the per-user weights
/// currently recorded for that target and list, and every recorded vote
/// points at an existing target record.
pub open spec fn tallies_consistent(s: OracleState, users: Seq<UserState>) -> bool {
    &&& forall|i: int|
        0 <= i < s.targets@.len() ==> #[trigger] s.targets@[i].blacklist_votes == users_contrib(
            users,
            s.targets@[i].target,
            true,
        )
    &&& forall|i: int|
        0 <= i < s.targets@.len() ==> #[trigger] s.targets@[i].whitelist_votes == users_contrib(
            users,
            s.targets@[i].target,
            false,
        )
    &&& forall|k: int, t: AccountId|
        0 <= k < users.len() && #[trigger] spec_has_vote(users[k].blacklist_votes@, t)
            ==> spec_target_index(s.targets@, t) != -1
    &&& forall|k: int, t: AccountId|
        0 <= k < users.len() && #[trigger] spec_has_vote(users[k].whitelist_votes@, t)
            ==> spec_target_index(s.targets@, t) != -1
}

/// A fresh oracle is consistent with any users who have no votes yet: the
/// base case of the tally invariant, which the vote and re-synchronization
/// laws then carry through every operation.
pub proof fn lemma_initial_tallies_consistent(s: OracleState, users: Seq<UserState>)
    requires
        s.targets@.len() == 0,
        forall|k: int|
            0 <= k < users.len() ==> (#[trigger] users[k].blacklist_votes@).len() == 0 && users[
                k
            ].whitelist_votes@.len() == 0,
    ensures
        tallies_consistent(s, users),
{
    assert forall|k: int, t: AccountId|
        0 <= k < users.len() implies !(#[trigger] spec_has_vote(users[k].blacklist_votes@, t))
        && !spec_has_vote(users[k].whitelist_votes@, t) by {
        assert(users[k].blacklist_votes@.len() == 0);
        assert(users[k].whitelist_votes@.len() == 0);
    }
    assert forall|k: int, t: AccountId|
        0 <= k < users.len() implies !(#[trigger] spec_has_vote(users[k].whitelist_votes@, t))
        by {
        assert(users[k].blacklist_votes@.len() == 0);
        assert(users[k].whitelist_votes@.len() == 0);
    }
}

/// Appending one vote adds exactly its weight to the contribution on its
/// target and nothing anywhere else.
proof fn lemma_list_contrib_push(vs: Seq<UserVote>, v: UserVote, target: AccountId)
    ensures
        user_list_contrib(vs.push(v), target) == user_list_contrib(vs, target) + (
        if v.target == target {
            v.weight as int
        } else {
            0
        }),
    decreases vs.len(),
{
    if vs.len() == 0 {
        assert(vs.push(v)[0] == v);
        assert(vs.push(v).drop_first() =~= Seq::<UserVote>::empty());
        assert(user_list_contrib(Seq::<UserVote>::empty(), target) == 0);
        assert(user_list_contrib(vs, target) == 0);
    } else {
        assert(vs.push(v)[0] == vs[0]);
        assert(vs.push(v).drop_first() =~= vs.drop_first().push(v));
        lemma_list_contrib_push(vs.drop_first(), v, target);
    }
}

/// A list with no entry on `target` contributes nothing to it.
proof fn lemma_list_contrib_absent(vs: Seq<UserVote>, target: AccountId)
    requires
        !spec_has_vote(vs, target),
    ensures
        user_list_contrib(vs, target) == 0,
    decreases vs.len(),
{
    if vs.len() != 0 {
        assert(vs[0].target != target);
        assert(!spec_has_vote(vs.drop_first(), target)) by {
            if spec_has_vote(vs.drop_first(), target) {
                let j = choose|j: int|
                    0 <= j < vs.drop_first().len() && #[trigger] vs.drop_first()[j].target
                        == target;
                assert(vs[j + 1].target == target);
            }
        }
        lemma_list_contrib_absent(vs.drop_first(), target);
    }
}

/// Replacing one user's record moves the total contribution by exactly the
/// difference of that user's own contribution.
proof fn lemma_users_contrib_update(
    users: Seq<UserState>,
    k: int,
    u1: UserState,
    target: AccountId,
    is_blacklist: bool,
)
    requires
        0 <= k < users.len(),
    ensures
        users_contrib(users.update(k, u1), target, is_blacklist) == users_contrib(
            users,
            target,
            is_blacklist,
        ) - user_list_contrib(spec_vote_list(users[k], is_blacklist), target)
            + user_list_contrib(spec_vote_list(u1, is_blacklist), target),
    decreases users.len(),
{
    let users1 = users.update(k, u1);
    if k == 0 {
        assert(users1[0] == u1);
        assert(users1.drop_first() =~= users.drop_first());
    } else {
        assert(users1[0] == users[0]);
        assert(users1.drop_first() =~= users.drop_first().update(k - 1, u1));
        assert(users.drop_first()[k - 1] == users[k]);
        lemma_users_contrib_update(users.drop_first(), k - 1, u1, target, is_blacklist);
    }
}

/// When no user has a vote on `target`, the total contribution is zero.
proof fn lemma_users_contrib_no_votes(
    users: Seq<UserState>,
    target: AccountId,
    is_blacklist: bool,
)
    requires
        forall|k: int|
            0 <= k < users.len() ==> !spec_has_vote(
                spec_vote_list(#[trigger] users[k], is_blacklist),
                target,
            ),
    ensures
        users_contrib(users, target, is_blacklist) == 0,
    decreases users.len(),
{
    if users.len() != 0 {
        assert(!spec_has_vote(spec_vote_list(users[0], is_blacklist), target));
        lemma_list_contrib_absent(spec_vote_list(users[0], is_blacklist), target);
        assert forall|k: int|
            0 <= k < users.drop_first().len() implies !spec_has_vote(
            spec_vote_list(#[trigger] users.drop_first()[k], is_blacklist),
            target,
        ) by {
            assert(users.drop_first()[k] == users[k + 1]);
        }
        lemma_users_contrib_no_votes(users.drop_first(), target, is_blacklist);
    }
}

/// Casting a vote keeps the tallies consistent: the chosen tally on the
/// voted target grows by exactly the weight the voter's record gains, and
/// every other tally and contribution is untouched.
pub proof fn lemma_vote_preserves_tallies(
    s: OracleState,
    users: Seq<UserState>,
    k: int,
    now: i64,
    target: AccountId,
    is_bl: bool,
    s1: OracleState,
    u1: UserState,
)
    requires
        targets_well_formed(s.targets@),
        tallies_consistent(s, users),
        0 <= k < users.len(),
        spec_vote_err(s, users[k], now, target, is_bl) is None,
        s1.targets@ == spec_vote_targets(s, users[k], now, target, is_bl),
        spec_vote_list(u1, is_bl) == spec_vote_list(users[k], is_bl).push(
            UserVote { target, weight: spec_unlock(users[k], s, now).unlocked_tokens },
        ),
        spec_vote_list(u1, !is_bl) == spec_vote_list(users[k], !is_bl),
    ensures
        tallies_consistent(s1, users.update(k, u1)),
{
    let w = spec_unlock(users[k], s, now).unlocked_tokens;
    let v = UserVote { target, weight: w };
    let users1 = users.update(k, u1);
    let ts0 = s.targets@;
    let ts1 = s1.targets@;
    lemma_target_index_spec(ts0, target);
    let i0 = spec_target_index(ts0, target);

    // How the sums move, for every target and both lists.
    assert forall|t: AccountId| #[trigger] users_contrib(users1, t, is_bl) == users_contrib(
        users,
        t,
        is_bl,
    ) + (if t == target {
        w as int
    } else {
        0
    }) by {
        lemma_users_contrib_update(users, k, u1, t, is_bl);
        lemma_list_contrib_push(spec_vote_list(users[k], is_bl), v, t);
    }
    let other = !is_bl;
    assert forall|t: AccountId| #[trigger] users_contrib(users1, t, other) == users_contrib(
        users,
        t,
        other,
    ) by {
        lemma_users_contrib_update(users, k, u1, t, other);
    }

    // Nobody held a vote on a target that had no record yet.
    if i0 == -1 {
        assert forall|k2: int|
            0 <= k2 < users.len() implies !spec_has_vote(
            spec_vote_list(#[trigger] users[k2], true),
            target,
        ) && !spec_has_vote(spec_vote_list(users[k2], false), target) by {
            if spec_has_vote(users[k2].blacklist_votes@, target) || spec_has_vote(
                users[k2].whitelist_votes@,
                target,
            ) {
                assert(spec_target_index(ts0, target) != -1);
            }
        }
        assert forall|b: bool| #[trigger] users_contrib(users, target, b) == 0 by {
            lemma_users_contrib_no_votes(users, target, b);
        }
    }

    // The tally equations hold on every record of the new list.
    assert forall|i: int| 0 <= i < ts1.len() implies #[trigger] ts1[i].blacklist_votes
        == users_contrib(users1, ts1[i].target, true) && ts1[i].whitelist_votes == users_contrib(
        users1,
        ts1[i].target,
        false,
    ) by {
        let rec = spec_vote_new_record(s, w, target, is_bl);
        if i0 == -1 {
            if i < ts0.len() {
                assert(ts1[i] == ts0[i]);
                assert(ts0[i].target != target);
            } else {
                assert(ts1[i] == rec);
            }
        } else {
            if i == i0 {
                assert(ts1[i] == rec);
            } else {
                assert(ts1[i] == ts0[i]);
                assert(ts0[i].target != ts0[i0].target);
            }
        }
    }

    // Every recorded vote still points at an existing target record.
    assert forall|k2: int, t: AccountId|
        0 <= k2 < users1.len() && #[trigger] spec_has_vote(users1[k2].blacklist_votes@, t)
        implies spec_target_index(ts1, t) != -1 by {
        if k2 != k {
            assert(users1[k2] == users[k2]);
            assert(spec_has_vote(users[k2].blacklist_votes@, t));
            lemma_vote_targets_preserve(s, users[k], now, target, is_bl, t);
        } else if !is_bl {
            assert(users1[k].blacklist_votes@ == users[k].blacklist_votes@);
            assert(spec_has_vote(users[k].blacklist_votes@, t));
            lemma_vote_targets_preserve(s, users[k], now, target, is_bl, t);
        } else {
            let vs0 = users[k].blacklist_votes@;
            let j = choose|j: int|
                0 <= j < users1[k].blacklist_votes@.len()
                    && #[trigger] users1[k].blacklist_votes@[j].target == t;
            if j < vs0.len() {
                assert(vs0[j].target == t);
                assert(spec_has_vote(vs0, t));
                lemma_vote_targets_preserve(s, users[k], now, target, is_bl, t);
            } else {
                assert(t == target);
                lemma_vote_targets_preserve(s, users[k], now, target, is_bl, t);
            }
        }
    }
    assert forall|k2: int, t: AccountId|
        0 <= k2 < users1.len() && #[trigger] spec_has_vote(users1[k2].whitelist_votes@, t)
        implies spec_target_index(ts1, t) != -1 by {
        if k2 != k {
            assert(users1[k2] == users[k2]);
            assert(spec_has_vote(users[k2].whitelist_votes@, t));
            lemma_vote_targets_preserve(s, users[k], now, target, is_bl, t);
        } else if is_bl {
            assert(users1[k].whitelist_votes@ == users[k].whitelist_votes@);
            assert(spec_has_vote(users[k].whitelist_votes@, t));
            lemma_vote_targets_preserve(s, users[k], now, target, is_bl, t);
        } else {
            let vs0 = users[k].whitelist_votes@;
            let j = choose|j: int|
                0 <= j < users1[k].whitelist_votes@.len()
                    && #[trigger] users1[k].whitelist_votes@[j].target == t;
            if j < vs0.len() {
                assert(vs0[j].target == t);
                assert(spec_has_vote(vs0, t));
                lemma_vote_targets_preserve(s, users[k], now, target, is_bl, t);
            } else {
                assert(t == target);
                lemma_vote_targets_preserve(s, users[k], now, target, is_bl, t);
            }
        }
    }
}

/// A target that has a record, or the target just voted on, still has a
/// record after the vote lands.
proof fn lemma_vote_targets_preserve(
    s: OracleState,
    u: UserState,
    now: i64,
    target: AccountId,
    is_bl: bool,
    t: AccountId,
)
    requires
        t == target || spec_target_index(s.targets@, t) != -1,
    ensures
        spec_target_index(spec_vote_targets(s, u, now, target, is_bl), t) != -1,
{
    let ts0 = s.targets@;
    let ts1 = spec_vote_targets(s, u, now, target, is_bl);
    lemma_target_index_spec(ts0, target);
    lemma_target_index_spec(ts0, t);
    lemma_target_index_spec(ts1, t);
    let i0 = spec_target_index(ts0, target);
    if t == target {
        if i0 == -1 {
            assert(ts1[ts0.len() as int].target == target);
        } else {
            assert(ts1[i0].target == target);
        }
        if spec_target_index(ts1, t) == -1 {
            assert(false);
        }
    } else {
        let j0 = spec_target_index(ts0, t);
        assert(ts0[j0].target == t);
        if i0 == -1 {
            assert(ts1[j0] == ts0[j0]);
        } else if j0 != i0 {
            assert(ts1[j0] == ts0[j0]);
        } else {
            assert(false);
        }
        if spec_target_index(ts1, t) == -1 {
            assert(ts1[j0].target != t);
        }
    }
}

/// Two target lists with the same targets in the same positions give every
/// identity the same first-match index.
proof fn lemma_target_index_same_targets(a: Seq<TargetVotes>, b: Seq<TargetVotes>, t: AccountId)
    requires
        a.len() == b.len(),
        forall|i: int| 0 <= i < a.len() ==> #[trigger] a[i].target == #[trigger] b[i].target,
    ensures
        spec_target_index(a, t) == spec_target_index(b, t),
    decreases a.len(),
{
    if a.len() != 0 {
        assert(a[0].target == b[0].target);
        assert forall|i: int| 0 <= i < a.drop_first().len() implies #[trigger] a.drop_first()[
            i
        ].target == #[trigger] b.drop_first()[i].target by {
            assert(a.drop_first()[i] == a[i + 1]);
            assert(b.drop_first()[i] == b[i + 1]);
        }
        lemma_target_index_same_targets(a.drop_first(), b.drop_first(), t);
    }
}

/// One pass of weight re-synchronization, when every voted target already
/// has a record: no record is added or removed, targets stay in place, the
/// other list's tallies are untouched, and on the chosen side each tally
/// loses the user's old recorded contribution and gains the remapped one.
proof fn lemma_reweight_tallies(
    ts: Seq<TargetVotes>,
    vs: Seq<UserVote>,
    new_weight: u64,
    quorum: u64,
    is_blacklist: bool,
)
    requires
        targets_well_formed(ts),
        forall|j: int| 0 <= j < vs.len() ==> spec_target_index(ts, #[trigger] vs[j].target)
            != -1,
        spec_reweight(ts, vs, new_weight, quorum, is_blacklist) is Ok,
    ensures
        ({
            let ts1 = spec_reweight(ts, vs, new_weight, quorum, is_blacklist)->Ok_0;
            &&& ts1.len() == ts.len()
            &&& (forall|i: int| 0 <= i < ts.len() ==> #[trigger] ts1[i].target == ts[i].target)
            &&& (forall|i: int|
                0 <= i < ts.len() ==> (if is_blacklist {
                    #[trigger] ts1[i].whitelist_votes == ts[i].whitelist_votes
                } else {
                    ts1[i].blacklist_votes == ts[i].blacklist_votes
                }))
            &&& (forall|i: int|
                0 <= i < ts.len() ==> (if is_blacklist {
                    #[trigger] ts1[i].blacklist_votes as int
                } else {
                    ts1[i].whitelist_votes as int
                }) == (if is_blacklist {
                    ts[i].blacklist_votes as int
                } else {
                    ts[i].whitelist_votes as int
                }) - user_list_contrib(vs, ts[i].target) + user_list_contrib(
                    remap_votes(vs, new_weight),
                    ts[i].target,
                ))
        }),
    decreases vs.len(),
{
    let ts1 = spec_reweight(ts, vs, new_weight, quorum, is_blacklist)->Ok_0;
    if vs.len() == 0 {
        assert(remap_votes(vs, new_weight) =~= Seq::<UserVote>::empty());
        assert(ts1 == ts);
    } else {
        let v0 = vs[0];
        lemma_target_index_spec(ts, v0.target);
        let i0 = spec_target_index(ts, v0.target);
        assert(i0 != -1);
        let step = spec_reweight_step(ts, v0, new_weight, quorum, is_blacklist);
        assert(step is Ok);
        let ts_mid = step->Ok_0;
        assert(ts_mid.len() == ts.len());
        assert(forall|i: int| 0 <= i < ts.len() ==> #[trigger] ts_mid[i].target == ts[
            i
        ].target);

        let rest = vs.drop_first();
        assert forall|j: int| 0 <= j < rest.len() implies spec_target_index(
            ts_mid,
            #[trigger] rest[j].target,
        ) != -1 by {
            assert(rest[j] == vs[j + 1]);
            assert(spec_target_index(ts, vs[j + 1].target) != -1);
            lemma_target_index_same_targets(ts, ts_mid, rest[j].target);
        }
        lemma_reweight_step_wf_local(ts, v0, new_weight, quorum, is_blacklist);
        lemma_reweight_tallies(ts_mid, rest, new_weight, quorum, is_blacklist);

        // relate the remapped lists of the whole and of the tail
        let rm = remap_votes(vs, new_weight);
        let rm_rest = remap_votes(rest, new_weight);
        assert(rm[0] == (UserVote { target: v0.target, weight: new_weight }));
        assert(rm.drop_first() =~= rm_rest);

        assert forall|i: int| 0 <= i < ts.len() implies (if is_blacklist {
            #[trigger] ts1[i].blacklist_votes as int
        } else {
            ts1[i].whitelist_votes as int
        }) == (if is_blacklist {
            ts[i].blacklist_votes as int
        } else {
            ts[i].whitelist_votes as int
        }) - user_list_contrib(vs, ts[i].target) + user_list_contrib(rm, ts[i].target) by {
            let t = ts[i].target;
            assert(user_list_contrib(vs, t) == (if v0.target == t {
                v0.weight as int
            } else {
                0
            }) + user_list_contrib(rest, t));
            assert(user_list_contrib(rm, t) == (if v0.target == t {
                new_weight as int
            } else {
                0
            }) + user_list_contrib(rm_rest, t));
            if i != i0 {
                assert(ts[i].target != ts[i0].target);
            }
        }
    }
}

/// Local restatement of the step's shape for the induction above: the step
/// keeps the list well formed and, when the target is found, keeps every
/// record's target and the other list's tally in place.
proof fn lemma_reweight_step_wf_local(
    ts: Seq<TargetVotes>,
    v: UserVote,
    new_weight: u64,
    quorum: u64,
    is_blacklist: bool,
)
    requires
        targets_well_formed(ts),
        spec_target_index(ts, v.target) != -1,
        spec_reweight_step(ts, v, new_weight, quorum, is_blacklist) is Ok,
    ensures
        ({
            let ts1 = spec_reweight_step(ts, v, new_weight, quorum, is_blacklist)->Ok_0;
            &&& targets_well_formed(ts1)
            &&& ts1.len() == ts.len()
            &&& (forall|i: int| 0 <= i < ts.len() ==> #[trigger] ts1[i].target == ts[i].target)
        }),
{
    lemma_target_index_spec(ts, v.target);
}

/// Weight re-synchronization keeps the tallies consistent: after a
/// withdrawal or an explicit refresh re-synchronizes user `k` to
/// `new_weight`, every tally again equals the sum of the recorded per-user
/// weights, with user `k`'s recorded weights all replaced.
pub proof fn lemma_reweight_preserves_tallies(
    s: OracleState,
    users: Seq<UserState>,
    k: int,
    new_weight: u64,
    s1: OracleState,
    u1: UserState,
)
    requires
        targets_well_formed(s.targets@),
        tallies_consistent(s, users),
        0 <= k < users.len(),
        spec_reweight_all(s, users[k], new_weight) == Ok::<Seq<TargetVotes>, OracleError>(
            s1.targets@,
        ),
        u1.blacklist_votes@ == remap_votes(users[k].blacklist_votes@, new_weight),
        u1.whitelist_votes@ == remap_votes(users[k].whitelist_votes@, new_weight),
    ensures
        tallies_consistent(s1, users.update(k, u1)),
{
    let ts0 = s.targets@;
    let vs_b = users[k].blacklist_votes@;
    let vs_w = users[k].whitelist_votes@;
    let users1 = users.update(k, u1);
    let q = s.quorum;

    // every voted target already has a record
    assert forall|j: int| 0 <= j < vs_b.len() implies spec_target_index(
        ts0,
        #[trigger] vs_b[j].target,
    ) != -1 by {
        assert(spec_has_vote(users[k].blacklist_votes@, vs_b[j].target));
    }
    assert forall|j: int| 0 <= j < vs_w.len() implies spec_target_index(
        ts0,
        #[trigger] vs_w[j].target,
    ) != -1 by {
        assert(spec_has_vote(users[k].whitelist_votes@, vs_w[j].target));
    }

    let first = spec_reweight(ts0, vs_b, new_weight, q, true);
    assert(first is Ok);
    let ts_mid = first->Ok_0;
    lemma_reweight_tallies(ts0, vs_b, new_weight, q, true);

    assert forall|j: int| 0 <= j < vs_w.len() implies spec_target_index(
        ts_mid,
        #[trigger] vs_w[j].target,
    ) != -1 by {
        lemma_target_index_same_targets(ts0, ts_mid, vs_w[j].target);
    }
    let second = spec_reweight(ts_mid, vs_w, new_weight, q, false);
    assert(second is Ok);
    let ts1 = second->Ok_0;
    assert(ts1 == s1.targets@);
    lemma_reweight_tallies(ts_mid, vs_w, new_weight, q, false);

    // how the sums move
    assert forall|t: AccountId| #[trigger] users_contrib(users1, t, true) == users_contrib(
        users,
        t,
        true,
    ) - user_list_contrib(vs_b, t) + user_list_contrib(remap_votes(vs_b, new_weight), t) by {
        lemma_users_contrib_update(users, k, u1, t, true);
    }
    assert forall|t: AccountId| #[trigger] users_contrib(users1, t, false) == users_contrib(
        users,
        t,
        false,
    ) - user_list_contrib(vs_w, t) + user_list_contrib(remap_votes(vs_w, new_weight), t) by {
        lemma_users_contrib_update(users, k, u1, t, false);
    }

    // the tally equations on every record
    assert forall|i: int| 0 <= i < ts1.len() implies #[trigger] ts1[i].blacklist_votes
        == users_contrib(users1, ts1[i].target, true) && ts1[i].whitelist_votes
        == users_contrib(users1, ts1[i].target, false) by {
        assert(ts1[i].target == ts0[i].target);
        assert(ts_mid[i].target == ts0[i].target);
        assert(ts0[i].blacklist_votes == users_contrib(users, ts0[i].target, true));
        assert(ts0[i].whitelist_votes == users_contrib(users, ts0[i].target, false));
    }

    // every recorded vote still points at an existing target record
    assert forall|k2: int, t: AccountId|
        0 <= k2 < users1.len() && #[trigger] spec_has_vote(users1[k2].blacklist_votes@, t)
        implies spec_target_index(ts1, t) != -1 by {
        if k2 == k {
            let j = choose|j: int|
                0 <= j < users1[k].blacklist_votes@.len()
                    && #[trigger] users1[k].blacklist_votes@[j].target == t;
            assert(vs_b[j].target == t);
            assert(spec_has_vote(users[k].blacklist_votes@, t));
        } else {
            assert(users1[k2] == users[k2]);
            assert(spec_has_vote(users[k2].blacklist_votes@, t));
        }
        assert(spec_target_index(ts0, t) != -1);
        lemma_target_index_same_targets(ts0, ts_mid, t);
        lemma_target_index_same_targets(ts_mid, ts1, t);
    }
    assert forall|k2: int, t: AccountId|
        0 <= k2 < users1.len() && #[trigger] spec_has_vote(users1[k2].whitelist_votes@, t)
        implies spec_target_index(ts1, t) != -1 by {
        if k2 == k {
            let j = choose|j: int|
                0 <= j < users1[k].whitelist_votes@.len()
                    && #[trigger] users1[k].whitelist_votes@[j].target == t;
            assert(vs_w[j].target == t);
            assert(spec_has_vote(users[k].whitelist_votes@, t));
        } else {
            assert(users1[k2] == users[k2]);
            assert(spec_has_vote(users[k2].whitelist_votes@, t));
        }
        assert(spec_target_index(ts0, t) != -1);
        lemma_target_index_same_targets(ts0, ts_mid, t);
        lemma_target_index_same_targets(ts_mid, ts1, t);
    }
}

/// Every blacklist flag equals the status rule applied to its own two
/// tallies under the oracle's quorum.
pub open spec fn flags_follow_rule(ts: Seq<TargetVotes>, quorum: u64) -> bool {
    forall|i: int|
        0 <= i < ts.len() ==> #[trigger] ts[i].is_blacklisted == spec_should_blacklist(
            ts[i].blacklist_votes,
            ts[i].whitelist_votes,
            quorum,
        )
}

/// Weight re-synchronization never leaves a flag out of step with the
/// rule: each touched record's flag is re-evaluated from its new tallies
/// and untouched records keep their consistent flags. So a flag flips
/// exactly when the rule's outcome flips.
pub proof fn lemma_reweight_keeps_flag_rule(
    ts: Seq<TargetVotes>,
    vs: Seq<UserVote>,
    new_weight: u64,
    quorum: u64,
    is_blacklist: bool,
)
    requires
        flags_follow_rule(ts, quorum),
        spec_reweight(ts, vs, new_weight, quorum, is_blacklist) is Ok,
    ensures
        flags_follow_rule(
            spec_reweight(ts, vs, new_weight, quorum, is_blacklist)->Ok_0,
            quorum,
        ),
    decreases vs.len(),
{
    if vs.len() != 0 {
        let v0 = vs[0];
        let step = spec_reweight_step(ts, v0, new_weight, quorum, is_blacklist);
        assert(step is Ok);
        let ts_mid = step->Ok_0;
        let i0 = spec_target_index(ts, v0.target);
        lemma_target_index_spec(ts, v0.target);
        assert forall|i: int| 0 <= i < ts_mid.len() implies #[trigger] ts_mid[i].is_blacklisted
            == spec_should_blacklist(
            ts_mid[i].blacklist_votes,
            ts_mid[i].whitelist_votes,
            quorum,
        ) by {
            if i0 == -1 {
                if i < ts.len() {
                    assert(ts_mid[i] == ts[i]);
                    assert(ts[i].is_blacklisted == spec_should_blacklist(
                        ts[i].blacklist_votes,
                        ts[i].whitelist_votes,
                        quorum,
                    ));
                }
            } else {
                if i != i0 {
                    assert(ts_mid[i] == ts[i]);
                    assert(ts[i].is_blacklisted == spec_should_blacklist(
                        ts[i].blacklist_votes,
                        ts[i].whitelist_votes,
                        quorum,
                    ));
                }
            }
        }
        lemma_reweight_keeps_flag_rule(ts_mid, vs.drop_first(), new_weight, quorum,
            is_blacklist);
    }
}

/// A cast vote never leaves a flag out of step with the rule: the flag on
/// the voted target is re-evaluated from its new tallies, and no other
/// record changes. So a flag flips exactly when the rule's outcome flips.
pub proof fn lemma_vote_keeps_flag_rule(
    s: OracleState,
    u: UserState,
    now: i64,
    target: AccountId,
    is_bl: bool,
)
    requires
        flags_follow_rule(s.targets@, s.quorum),
    ensures
        flags_follow_rule(spec_vote_targets(s, u, now, target, is_bl), s.quorum),
{
    let ts1 = spec_vote_targets(s, u, now, target, is_bl);
    let ts0 = s.targets@;
    lemma_target_index_spec(ts0, target);
    let i0 = spec_target_index(ts0, target);
    let w = spec_unlock(u, s, now).unlocked_tokens;
    let rec = spec_vote_new_record(s, w, target, is_bl);
    assert forall|i: int| 0 <= i < ts1.len() implies #[trigger] ts1[i].is_blacklisted
        == spec_should_blacklist(ts1[i].blacklist_votes, ts1[i].whitelist_votes, s.quorum) by {
        if i0 == -1 {
            if i < ts0.len() {
                assert(ts1[i] == ts0[i]);
                assert(ts0[i].is_blacklisted == spec_should_blacklist(
                    ts0[i].blacklist_votes,
                    ts0[i].whitelist_votes,
                    s.quorum,
                ));
            } else {
                assert(ts1[i] == rec);
            }
        } else {
            if i == i0 {
                assert(ts1[i] == rec);
            } else {
                assert(ts1[i] == ts0[i]);
                assert(ts0[i].is_blacklisted == spec_should_blacklist(
                    ts0[i].blacklist_votes,
                    ts0[i].whitelist_votes,
                    s.quorum,
                ));
            }
        }
    }
}

} // verus!
