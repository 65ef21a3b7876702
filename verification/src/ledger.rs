//! Ledger metadata snapshots.

use vstd::prelude::*;

verus! {

/// A snapshot of the latest known state of the ledger, produced fresh per
/// request by the storage collaborator and read-only to this library.
///
/// `version` is the current maximum ledger version; the remaining fields are
/// metadata carried through to the response envelope.
#[derive(Clone, Copy, Debug, PartialEq, Eq, Structural)]
pub struct LedgerInfo {
    pub chain_id: u8,
    pub version: u64,
    pub timestamp_usecs: u64,
}

impl LedgerInfo {
    pub fn new(chain_id: u8, version: u64, timestamp_usecs: u64) -> (r: LedgerInfo)
        ensures
            r.chain_id == chain_id,
            r.version == version,
            r.timestamp_usecs == timestamp_usecs,
    {
        LedgerInfo { chain_id, version, timestamp_usecs }
    }

    /// The current maximum ledger version in this snapshot.
    pub fn version(&self) -> (r: u64)
        ensures
            r == self.version,
    {
        self.version
    }
}

} // verus!
