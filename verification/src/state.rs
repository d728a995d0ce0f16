//! The state record that the engine keeps and that dependents query.

use vstd::prelude::*;
use crate::snapshot::{DelegationView, Snapshot};

verus! {

/// The coarse status of the engine.
#[derive(Clone, Copy, Debug, PartialEq, Eq, Structural)]
pub enum Status {
    /// Nothing is pending.
    Idle,
    /// At least one instruction awaits its acknowledgement.
    AwaitingAck,
    /// A timeout was seen and nothing else is known. The engine does not
    /// enter this status by itself: after a timeout it is idle or awaiting.
    TimedOut,
    /// Local bookkeeping may have drifted from the remote chain; new
    /// instructions are refused until a resynchronisation.
    NeedsResync,
}

/// The state of one contract instance.
#[derive(Clone, Debug, PartialEq, Eq)]
pub struct State {
    /// The last snapshot that the remote chain confirmed.
    pub confirmed_snapshot: Snapshot,
    /// The sequence numbers of the pending instructions, in submission order.
    pub pending: Vec<u64>,
    pub status: Status,
}

/// Mathematical model of a [`State`].
pub struct StateView {
    pub confirmed_snapshot: Seq<DelegationView>,
    pub pending: Seq<u64>,
    pub status: Status,
}

impl View for State {
    type V = StateView;

    open spec fn view(&self) -> StateView {
        StateView {
            confirmed_snapshot: self.confirmed_snapshot@,
            pending: self.pending@,
            status: self.status,
        }
    }
}

impl StateView {
    /// The pending sequence numbers as a set.
    pub open spec fn pending_set(self) -> Set<u64> {
        self.pending.to_set()
    }
}

impl State {
    /// The state of a fresh instance: nothing confirmed, nothing pending.
    pub fn new() -> (r: State)
        ensures
            r@.confirmed_snapshot == Seq::<DelegationView>::empty(),
            r@.pending == Seq::<u64>::empty(),
            r@.status == Status::Idle,
            r.confirmed_snapshot.wf(),
    {
        State { confirmed_snapshot: Snapshot::new(), pending: Vec::new(), status: Status::Idle }
    }

    /// A copy of this state.
    pub fn duplicate(&self) -> (r: State)
        ensures
            r@ == self@,
    {
        State {
            confirmed_snapshot: self.confirmed_snapshot.duplicate(),
            pending: self.pending.clone(),
            status: self.status,
        }
    }
}

} // verus!
