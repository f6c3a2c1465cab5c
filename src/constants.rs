use vstd::prelude::*;

verus! {

/// Half of a slot's duration, in seconds.
pub const DELTA: u64 = 20;

/// Number of slots in an epoch.
pub const EPOCH_LENGTH: u64 = 10;

/// Value of every coin minted for the epoch lottery.
pub const LOTTERY_HEAD_START: u64 = 1;

/// Stake used when tuning the lottery parameters.
pub const REWARD: u64 = 1;

/// Depth of the commitment Merkle trees.
pub const MERKLE_DEPTH: u64 = 32;

/// Number of proposals a fork chain must hold before its prefix is finalized.
pub const FINALIZATION_DEPTH: usize = 3;

} // verus!
