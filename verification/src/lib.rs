//! A stake-weighted, time-decayed value oracle.
//!
//! Participants lock fungible tokens as voting weight, submit numeric
//! observations, and the oracle keeps a single running aggregate that blends
//! new submissions with an exponentially decaying history. Submitters are
//! paid from a reward pool in proportion to their weight and to how stale
//! their previous influence has become. A parallel weight-staked governance
//! mechanism lets participants blacklist or whitelist target identities by
//! quorum vote.
//!
//! The ledger substrate (account storage, token transfers, the clock) is a
//! capability interface of the host: every operation here takes the current
//! timestamp and any balances it needs as plain values, and reports what the
//! host must transfer. Each operation either commits all of its changes or
//! fails with the state untouched.

pub mod decay;
pub mod errors;
pub mod events;
pub mod laws;
pub mod ops;
pub mod state;
