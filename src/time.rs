use vstd::prelude::*;

use crate::constants::{DELTA, EPOCH_LENGTH};

verus! {

/// Duration of one slot in seconds.
pub open spec fn slot_duration() -> int {
    2 * DELTA as int
}

/// Epoch that a slot belongs to.
pub open spec fn spec_slot_epoch(slot: u64) -> int {
    slot as int / EPOCH_LENGTH as int
}

/// Position of a slot inside its epoch.
pub open spec fn spec_relative_slot(slot: u64) -> int {
    slot as int % EPOCH_LENGTH as int
}

/// Seconds elapsed from `genesis_ts` to `now`, zero when the clock is behind genesis.
pub open spec fn spec_elapsed(genesis_ts: i64, now: i64) -> int {
    if now as int > genesis_ts as int {
        now as int - genesis_ts as int
    } else {
        0
    }
}

/// Slot that is running at time `now`.
pub open spec fn spec_slot_at(genesis_ts: i64, now: i64) -> int {
    spec_elapsed(genesis_ts, now) / slot_duration()
}

/// Slots from `current_slot` to the start of the `n`th next epoch.
pub open spec fn spec_slots_to_next_n_epoch(current_slot: u64, n: u64) -> int {
    (n - 1) * EPOCH_LENGTH as int + (EPOCH_LENGTH as int - spec_relative_slot(current_slot))
}

/// Seconds from `now` to the start of slot `slot`, zero when that start has passed.
pub open spec fn spec_seconds_until_slot(genesis_ts: i64, now: i64, slot: int) -> int {
    let start = genesis_ts as int + slot * slot_duration();
    if start > now as int {
        start - now as int
    } else {
        0
    }
}

/// Epoch of the provided slot.
pub fn slot_epoch(slot: u64) -> (r: u64)
    ensures
        r as int == spec_slot_epoch(slot),
{
    slot / EPOCH_LENGTH
}

/// Position of the provided slot inside its epoch.
pub fn relative_slot(slot: u64) -> (r: u64)
    ensures
        r as int == spec_relative_slot(slot),
        r < EPOCH_LENGTH,
{
    slot % EPOCH_LENGTH
}

/// Seconds elapsed since genesis, saturating at zero.
pub fn elapsed_since(genesis_ts: i64, now: i64) -> (r: u64)
    ensures
        r as int == spec_elapsed(genesis_ts, now),
{
    if now > genesis_ts {
        let d: i128 = now as i128 - genesis_ts as i128;
        d as u64
    } else {
        0
    }
}

/// Slot running at time `now` for a chain started at `genesis_ts`.
pub fn slot_at(genesis_ts: i64, now: i64) -> (r: u64)
    ensures
        r as int == spec_slot_at(genesis_ts, now),
        r < u64::MAX,
{
    elapsed_since(genesis_ts, now) / (2 * DELTA)
}

/// Slots until the `n`th next epoch starts, counted from `current_slot`.
pub fn slots_to_next_n_epoch_at(current_slot: u64, n: u64) -> (r: u64)
    requires
        n > 0,
        (n - 1) * EPOCH_LENGTH + EPOCH_LENGTH <= u64::MAX,
    ensures
        r as int == spec_slots_to_next_n_epoch(current_slot, n),
        r > 0,
{
    let till_next = EPOCH_LENGTH - relative_slot(current_slot);
    (n - 1) * EPOCH_LENGTH + till_next
}

/// Seconds from `now` until slot `current_slot + n` starts, saturating at zero.
pub fn next_n_slot_start_at(genesis_ts: i64, now: i64, current_slot: u64, n: u64) -> (r: u128)
    requires
        n > 0,
    ensures
        r as int == spec_seconds_until_slot(genesis_ts, now, current_slot + n),
{
    let slot: i128 = current_slot as i128 + n as i128;
    assert(0 <= slot * 40 <= 0x2_0000_0000_0000_0000 * 40) by (nonlinear_arith)
        requires
            0 <= slot <= 0x2_0000_0000_0000_0000int,
    ;
    let start: i128 = genesis_ts as i128 + slot * (2 * DELTA as i128);
    if start > now as i128 {
        (start - now as i128) as u128
    } else {
        0
    }
}

/// Every slot splits into its epoch and its position inside that epoch, the position
/// below the epoch length.
pub proof fn lemma_slot_split(slot: u64)
    ensures
        spec_slot_epoch(slot) == slot as int / EPOCH_LENGTH as int,
        0 <= spec_relative_slot(slot) < EPOCH_LENGTH,
        slot as int == spec_slot_epoch(slot) * EPOCH_LENGTH as int + spec_relative_slot(slot),
{
}

} // verus!
