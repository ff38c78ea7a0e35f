//! The balance cache: one last-observed balance, overwritten on every
//! query, read back without a network round trip.  Not authoritative.

use vstd::prelude::*;

verus! {

/// A single-entry, last-write-wins store for the last observed balance.
pub struct BalanceCache {
    /// The last recorded balance, if any.
    pub last: Option<u64>,
}

impl BalanceCache {
    /// An empty cache: nothing was ever recorded.
    pub fn new() -> (c: BalanceCache)
        ensures
            c.read_spec() is None,
    {
        BalanceCache { last: None }
    }

    /// What the cache currently holds.
    pub open spec fn read_spec(&self) -> Option<u64> {
        self.last
    }

    /// Overwrites the stored value: last write wins.
    pub fn record(&mut self, balance: u64)
        ensures
            final(self).read_spec() == Some(balance),
    {
        self.last = Some(balance);
    }

    /// The last recorded balance, or `None` if none was ever recorded.
    pub fn read(&self) -> (r: Option<u64>)
        ensures
            r == self.read_spec(),
    {
        self.last
    }
}

} // verus!
