use vstd::prelude::*;

verus! {

/// The ledger's time as an operation sees it. Both values are recorded and
/// reported; no rule depends on them.
#[derive(Clone, Copy, Debug, PartialEq, Eq)]
pub struct Clock {
    /// Seconds since the Unix epoch.
    pub unix_timestamp: i64,
    /// The ledger's current slot.
    pub slot: u64,
}

} // verus!
