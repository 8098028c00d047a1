use vstd::prelude::*;

verus! {

/// Every way a call can be rejected. A rejected call leaves all state
/// exactly as it was: the operations commit nothing on error.
#[derive(Clone, Copy, Debug, PartialEq, Eq, Structural)]
pub enum OracleError {
    /// The oracle name is empty or longer than the allowed maximum.
    InvalidName,
    /// The oracle description is longer than the allowed maximum.
    InvalidDescription,
    /// The reward rate exceeds 100% of the held balance.
    InvalidRewardRate,
    /// A transfer amount was zero.
    AmountMustBePositive,
    /// A checked arithmetic step exceeded its type's upper bound.
    MathOverflow,
    /// A checked arithmetic step fell below its type's lower bound.
    MathUnderflow,
    /// A withdrawal was attempted before the cooldown elapsed.
    WithdrawalLocked,
    /// The unlocked balance is smaller than the requested withdrawal.
    InsufficientUnlockedTokens,
    /// The caller is flagged blacklisted on the governance target list.
    AccountBlacklisted,
    /// The caller has no unlocked tokens to act with.
    NoUnlockedTokens,
    /// A submission would leave the total aggregate weight at zero.
    ZeroWeightAfterUpdate,
    /// The caller has already voted on this target in this list.
    AlreadyVoted,
    /// The caller's vote list is at capacity.
    TooManyVotes,
    /// The oracle's governance target list is at capacity.
    TooManyTargets,
    /// The user record belongs to a different oracle or owner.
    InvalidAuthority,
}

} // verus!
