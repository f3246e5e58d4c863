//! Sync-committee periods.

use vstd::prelude::*;

verus! {

/// Number of slots in one epoch.
pub const SLOTS_PER_EPOCH: u64 = 32;

/// Number of epochs in one sync-committee period.
pub const EPOCHS_PER_SYNC_COMMITTEE_PERIOD: u64 = 256;

/// Number of slots in one sync-committee period.
pub const SLOTS_PER_PERIOD: u64 = 8192;

/// The sync-committee period that a slot belongs to.
pub open spec fn sync_period(slot: u64) -> u64 {
    slot / SLOTS_PER_PERIOD
}

/// Computes the sync-committee period of a beacon slot.
pub fn calc_sync_period(slot: u64) -> (period: u64)
    ensures
        period == sync_period(slot),
        period == (slot / SLOTS_PER_EPOCH) / EPOCHS_PER_SYNC_COMMITTEE_PERIOD,
{
    slot / SLOTS_PER_PERIOD
}

/// Periods never decrease along a chain whose slots never decrease.
pub proof fn lemma_sync_period_monotonic(earlier: u64, later: u64)
    requires
        earlier <= later,
    ensures
        sync_period(earlier) <= sync_period(later),
{
}

} // verus!
