//! Error kinds of the tracking engine.

use vstd::prelude::*;

verus! {

/// Why an operation of the engine or of the ledger was rejected.
///
/// A rejected operation leaves every piece of state as it was.
#[derive(Clone, Copy, Debug, PartialEq, Eq, Structural)]
pub enum ContractError {
    /// The caller is not the owning principal.
    Unauthorized,
    /// The configuration was never initialised.
    NotFound,
    /// The ledger already holds an entry with this sequence number.
    DuplicateSequence,
    /// No pending entry carries this sequence number.
    UnknownSequence,
    /// New instructions are refused until the state has been resynchronised.
    NeedsResync,
}

} // verus!
