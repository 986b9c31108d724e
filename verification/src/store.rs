//! Durable keyed persistence for the escrow ledger.
//!
//! Three key spaces, each addressed by job identifier: the per-job record,
//! the per-job balance, and the per-job retention window.  Writes overwrite
//! unconditionally; a balance read defaults to zero for an absent entry.
//! [`EscrowStore::extend_retention`] models the lifetime extension the
//! underlying persistence layer wants on every write: the job's remaining
//! retention window is refreshed to its full width.

use vstd::prelude::*;
use crate::kvlist::keys_unique;
use crate::kvlist::map_of;
use crate::kvlist::kv_get;
use crate::kvlist::kv_put;

verus! {

/// The record kept for one job identifier: the funding employer (fixed at
/// creation), the optional receiving beneficiary, and the asset the escrow
/// is denominated in (fixed at creation).
#[derive(Clone, Copy, Debug, PartialEq, Eq)]
pub struct EscrowData {
    pub employer: u64,
    pub beneficiary: Option<u64>,
    pub asset: u64,
}

/// The width a job's retention window is refreshed to on every write.
pub const RETENTION_WINDOW: u64 = 5000;

/// Keyed persistence for records, balances and retention windows.
pub struct EscrowStore {
    records: Vec<(u64, EscrowData)>,
    balances: Vec<(u64, i128)>,
    retention: Vec<(u64, u64)>,
}

impl EscrowStore {
    /// Each key space holds at most one entry per job identifier.
    pub closed spec fn wf(&self) -> bool {
        keys_unique(self.records@) && keys_unique(self.balances@) && keys_unique(self.retention@)
    }

    /// The stored records, as a map from job identifier to record.
    pub closed spec fn record_map(&self) -> Map<u64, EscrowData> {
        map_of(self.records@)
    }

    /// The stored balances, as a map from job identifier to amount.
    pub closed spec fn balance_map(&self) -> Map<u64, i128> {
        map_of(self.balances@)
    }

    /// The stored retention windows, as a map from job identifier to width.
    pub closed spec fn retention_map(&self) -> Map<u64, u64> {
        map_of(self.retention@)
    }

    /// The balance held for the job: the stored amount, or zero when no
    /// entry exists.
    pub open spec fn spec_balance(&self, job_id: u64) -> i128 {
        if self.balance_map().dom().contains(job_id) {
            self.balance_map()[job_id]
        } else {
            0
        }
    }

    /// The retention window left for the job, zero when no entry exists.
    pub open spec fn spec_retention(&self, job_id: u64) -> u64 {
        if self.retention_map().dom().contains(job_id) {
            self.retention_map()[job_id]
        } else {
            0
        }
    }

    /// An empty store: no records, no balances, no retention entries.
    pub fn new() -> (store: Self)
        ensures
            store.wf(),
            store.record_map() == Map::<u64, EscrowData>::empty(),
            store.balance_map() == Map::<u64, i128>::empty(),
            store.retention_map() == Map::<u64, u64>::empty(),
    {
        let store = EscrowStore { records: Vec::new(), balances: Vec::new(), retention: Vec::new() };
        proof {
            assert(store.record_map() =~= Map::<u64, EscrowData>::empty());
            assert(store.balance_map() =~= Map::<u64, i128>::empty());
            assert(store.retention_map() =~= Map::<u64, u64>::empty());
        }
        store
    }

    /// The record for the job, or `None` when none was ever written.
    pub fn get_record(&self, job_id: u64) -> (result: Option<EscrowData>)
        requires
            self.wf(),
        ensures
            self.record_map().dom().contains(job_id) ==> result == Some(
                self.record_map()[job_id],
            ),
            !self.record_map().dom().contains(job_id) ==> result is None,
    {
        kv_get(&self.records, job_id)
    }

    /// Overwrites the record for the job unconditionally.
    pub fn put_record(&mut self, job_id: u64, data: EscrowData)
        requires
            old(self).wf(),
        ensures
            final(self).wf(),
            final(self).record_map() == old(self).record_map().insert(job_id, data),
            final(self).balance_map() == old(self).balance_map(),
            final(self).retention_map() == old(self).retention_map(),
    {
        kv_put(&mut self.records, job_id, data);
    }

    /// The balance for the job; zero when no entry exists.
    pub fn get_balance(&self, job_id: u64) -> (amount: i128)
        requires
            self.wf(),
        ensures
            amount == self.spec_balance(job_id),
    {
        match kv_get(&self.balances, job_id) {
            Some(amount) => amount,
            None => 0,
        }
    }

    /// Overwrites the balance for the job unconditionally.
    pub fn put_balance(&mut self, job_id: u64, amount: i128)
        requires
            old(self).wf(),
        ensures
            final(self).wf(),
            final(self).balance_map() == old(self).balance_map().insert(job_id, amount),
            final(self).record_map() == old(self).record_map(),
            final(self).retention_map() == old(self).retention_map(),
    {
        kv_put(&mut self.balances, job_id, amount);
    }

    /// The retention window left for the job; zero when no entry exists.
    pub fn get_retention(&self, job_id: u64) -> (width: u64)
        requires
            self.wf(),
        ensures
            width == self.spec_retention(job_id),
    {
        match kv_get(&self.retention, job_id) {
            Some(width) => width,
            None => 0,
        }
    }

    /// Refreshes the job's retention window to its full width.
    pub fn extend_retention(&mut self, job_id: u64)
        requires
            old(self).wf(),
        ensures
            final(self).wf(),
            final(self).retention_map() == old(self).retention_map().insert(
                job_id,
                RETENTION_WINDOW,
            ),
            final(self).record_map() == old(self).record_map(),
            final(self).balance_map() == old(self).balance_map(),
    {
        kv_put(&mut self.retention, job_id, RETENTION_WINDOW);
    }
}

} // verus!
