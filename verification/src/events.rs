use vstd::prelude::*;

use crate::state::AccountId;

verus! {

/// Report of a successful submission, for the host to publish.
#[derive(Clone, Copy, Debug, PartialEq, Eq, Structural)]
pub struct ValueSubmitted {
    pub submitter: AccountId,
    pub timestamp: i64,
    pub submitted_value: i128,
    pub aggregated_value: i128,
    pub weight: u64,
    pub reward_lamports: u64,
}

/// Report of a funding transfer into the oracle's held balance.
#[derive(Clone, Copy, Debug, PartialEq, Eq, Structural)]
pub struct Funded {
    pub from: AccountId,
    pub amount: u64,
}

/// Report of a token deposit into the vault.
#[derive(Clone, Copy, Debug, PartialEq, Eq, Structural)]
pub struct TokenDeposited {
    pub user: AccountId,
    pub amount: u64,
}

/// Report of a token withdrawal out of the vault.
#[derive(Clone, Copy, Debug, PartialEq, Eq, Structural)]
pub struct TokenWithdrawn {
    pub user: AccountId,
    pub amount: u64,
}

/// Report of a cast vote.
#[derive(Clone, Copy, Debug, PartialEq, Eq, Structural)]
pub struct Voted {
    pub target: AccountId,
    pub voter: AccountId,
    pub is_blacklist: bool,
    pub weight: u64,
}

/// Report that a target's blacklist flag actually flipped.
#[derive(Clone, Copy, Debug, PartialEq, Eq, Structural)]
pub struct BlacklistStatusChanged {
    pub target: AccountId,
    pub is_blacklisted: bool,
}

} // verus!
