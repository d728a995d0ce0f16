//! The reconciliation engine: the state machine that records outbound
//! instructions and matches each with its acknowledgement or timeout.

use vstd::prelude::*;
use crate::config::{Config, ConfigView};
use crate::error::ContractError;
use crate::ledger::{
    close_all, contains_sequence, count_pending, has_pending, lemma_close_all_settles,
    lemma_pending_of_counts, lemma_pending_of_push, pending_entry, pending_index, pending_of,
    resolved, unique_sequences, views, Instruction, InstructionView, Ledger, Resolution,
    Transfer, TransferView,
};
use crate::projector::{project, projection, DelegationsResponse};
use crate::snapshot::{distinct_validators, DelegationView, Snapshot};
use crate::state::{State, StateView, Status};

verus! {

/// How the remote side answered an instruction.
#[derive(Clone, Copy, Debug, PartialEq, Eq, Structural)]
pub enum AckOutcome {
    /// The instruction was executed.
    Success,
    /// The transport gave up; the caller may submit again.
    Timeout,
    /// The remote chain rejected the instruction; this cannot be retried.
    Rejected,
}

/// What the engine did with a channel event.
#[derive(Clone, Copy, Debug, PartialEq, Eq, Structural)]
pub enum AckDisposition {
    /// The event resolved a pending entry.
    Applied,
    /// No pending entry carries the sequence number: the event is stale or
    /// was delivered before, and nothing changed.
    Ignored,
}

/// Mathematical model of a [`Puppeteer`]: the configuration, the state
/// record and the ledger in submission order.
pub struct PuppeteerView {
    pub config: Option<ConfigView>,
    pub state: StateView,
    pub ledger: Seq<TransferView>,
}

impl PuppeteerView {
    /// What holds of every instance: sequence numbers are unique, the
    /// pending numbers are exactly those of the pending ledger entries, and
    /// the status agrees with them.
    pub open spec fn wf(self) -> bool {
        &&& unique_sequences(self.ledger)
        &&& distinct_validators(self.state.confirmed_snapshot)
        &&& self.state.pending == pending_of(self.ledger)
        &&& (self.state.status is Idle ==> self.state.pending.len() == 0)
        &&& (self.state.status is AwaitingAck ==> self.state.pending.len() > 0)
        &&& (self.config is None ==> self.ledger.len() == 0 && self.state.status is Idle)
    }
}

/// Why `caller` may not change the instance, if so.
pub open spec fn refusal(pre: PuppeteerView, caller: Seq<char>) -> Option<ContractError> {
    if pre.config is None {
        Some(ContractError::NotFound)
    } else if pre.config.unwrap().owner != caller {
        Some(ContractError::Unauthorized)
    } else {
        None
    }
}

/// The instance after `submit`, and what `submit` returns.
///
/// An uninitialised instance and a caller other than the owner are refused
/// first, then a submission while a resynchronisation is due, then a
/// sequence number that the ledger already holds.
pub open spec fn spec_submit(
    pre: PuppeteerView,
    caller: Seq<char>,
    sequence: u64,
    instruction: InstructionView,
    height: u64,
    time: u64,
) -> (PuppeteerView, Result<u64, ContractError>) {
    if refusal(pre, caller) is Some {
        (pre, Err(refusal(pre, caller).unwrap()))
    } else if pre.state.status is NeedsResync {
        (pre, Err(ContractError::NeedsResync))
    } else if contains_sequence(pre.ledger, sequence) {
        (pre, Err(ContractError::DuplicateSequence))
    } else {
        let ledger = pre.ledger.push(pending_entry(sequence, instruction, height, time));
        (
            PuppeteerView {
                config: pre.config,
                state: StateView {
                    confirmed_snapshot: pre.state.confirmed_snapshot,
                    pending: pending_of(ledger),
                    status: if pre.state.status is Idle {
                        Status::AwaitingAck
                    } else {
                        pre.state.status
                    },
                },
                ledger,
            },
            Ok(sequence),
        )
    }
}

/// The terminal status that an outcome gives a ledger entry.
pub open spec fn resolution_of(outcome: AckOutcome) -> Resolution {
    match outcome {
        AckOutcome::Success => Resolution::Acknowledged,
        AckOutcome::Timeout => Resolution::TimedOut,
        AckOutcome::Rejected => Resolution::TimedOut,
    }
}

/// The status after an event was applied: a due resynchronisation stays
/// due, a rejection makes one due, and otherwise the number of entries
/// still pending decides.
pub open spec fn status_after_ack(before: Status, outcome: AckOutcome, remaining: nat) -> Status {
    if before is NeedsResync || outcome is Rejected {
        Status::NeedsResync
    } else if remaining == 0 {
        Status::Idle
    } else {
        Status::AwaitingAck
    }
}

/// The instance after `on_ack`, and what `on_ack` returns.
pub open spec fn spec_on_ack(
    pre: PuppeteerView,
    sequence: u64,
    outcome: AckOutcome,
    payload: Option<Seq<DelegationView>>,
) -> (PuppeteerView, AckDisposition) {
    if !has_pending(pre.ledger, sequence) {
        (pre, AckDisposition::Ignored)
    } else {
        let i = pending_index(pre.ledger, sequence);
        let ledger = pre.ledger.update(i, resolved(pre.ledger[i], resolution_of(outcome)));
        (
            PuppeteerView {
                config: pre.config,
                state: StateView {
                    confirmed_snapshot: if outcome is Success && payload is Some {
                        payload.unwrap()
                    } else {
                        pre.state.confirmed_snapshot
                    },
                    pending: pending_of(ledger),
                    status: status_after_ack(pre.state.status, outcome, pending_of(ledger).len()),
                },
                ledger,
            },
            AckDisposition::Applied,
        )
    }
}

/// The instance after `resync`, and what `resync` returns.
///
/// A resynchronisation imposes the snapshot, closes every entry that is
/// still pending as timed out, and leaves the engine idle.
pub open spec fn spec_resync(pre: PuppeteerView, caller: Seq<char>, snapshot: Seq<DelegationView>) -> (
    PuppeteerView,
    Result<(), ContractError>,
) {
    if refusal(pre, caller) is Some {
        (pre, Err(refusal(pre, caller).unwrap()))
    } else {
        (
            PuppeteerView {
                config: pre.config,
                state: StateView {
                    confirmed_snapshot: snapshot,
                    pending: Seq::empty(),
                    status: Status::Idle,
                },
                ledger: close_all(pre.ledger),
            },
            Ok(()),
        )
    }
}

/// The instance after `update_config`, and what `update_config` returns.
pub open spec fn spec_update_config(pre: PuppeteerView, caller: Seq<char>, config: ConfigView) -> (
    PuppeteerView,
    Result<(), ContractError>,
) {
    if refusal(pre, caller) is Some {
        (pre, Err(refusal(pre, caller).unwrap()))
    } else {
        (PuppeteerView { config: Some(config), state: pre.state, ledger: pre.ledger }, Ok(()))
    }
}

/// The model of an optional snapshot.
pub open spec fn payload_view(payload: Option<Snapshot>) -> Option<Seq<DelegationView>> {
    match payload {
        Some(s) => Some(s@),
        None => None,
    }
}

/// The model of an optional configuration.
pub open spec fn config_view(config: Option<Config>) -> Option<ConfigView> {
    match config {
        Some(c) => Some(c@),
        None => None,
    }
}

/// Whether two lists hold the same numbers in the same order.
fn same_numbers(a: &Vec<u64>, b: &Vec<u64>) -> (r: bool)
    ensures
        r == (a@ == b@),
{
    if a.len() != b.len() {
        return false;
    }
    let mut i: usize = 0;
    while i < a.len()
        invariant
            i <= a.len(),
            a.len() == b.len(),
            forall|j: int| 0 <= j < i ==> a@[j] == b@[j],
        decreases a.len() - i,
    {
        if a[i] != b[i] {
            return false;
        }
        i += 1;
    }
    assert(a@ =~= b@);
    true
}

/// One contract instance: its configuration, its state and its ledger.
#[derive(Clone, Debug, PartialEq, Eq)]
pub struct Puppeteer {
    config: Option<Config>,
    state: State,
    ledger: Ledger,
}

impl View for Puppeteer {
    type V = PuppeteerView;

    closed spec fn view(&self) -> PuppeteerView {
        PuppeteerView { config: config_view(self.config), state: self.state@, ledger: self.ledger@ }
    }
}

impl Puppeteer {
    /// Well-formedness of an instance.
    pub open spec fn wf(&self) -> bool {
        self@.wf()
    }

    /// An instance that was never initialised: it has no configuration,
    /// and nothing can be submitted to it.
    pub fn new() -> (r: Puppeteer)
        ensures
            r.wf(),
            r@.config is None,
            r@.ledger == Seq::<TransferView>::empty(),
            r@.state.confirmed_snapshot == Seq::<DelegationView>::empty(),
            r@.state.pending == Seq::<u64>::empty(),
            r@.state.status == Status::Idle,
    {
        Puppeteer { config: None, state: State::new(), ledger: Ledger::new() }
    }

    /// A fresh instance with its configuration: idle, with an empty ledger
    /// and nothing confirmed.
    pub fn instantiate(config: Config) -> (r: Puppeteer)
        ensures
            r.wf(),
            r@.config == Some(config@),
            r@.ledger == Seq::<TransferView>::empty(),
            r@.state.confirmed_snapshot == Seq::<DelegationView>::empty(),
            r@.state.pending == Seq::<u64>::empty(),
            r@.state.status == Status::Idle,
    {
        Puppeteer { config: Some(config), state: State::new(), ledger: Ledger::new() }
    }

    /// The instance that holds the given configuration, state and ledger
    /// entries, where these fit together: the sequence numbers are unique,
    /// the pending numbers are those of the pending entries in their order,
    /// and the status agrees with them. Otherwise there is no such instance.
    pub fn restore(config: Option<Config>, state: State, entries: Vec<Transfer>) -> (r: Option<
        Puppeteer,
    >)
        requires
            state.confirmed_snapshot.wf(),
        ensures
            ({
                let v = PuppeteerView {
                    config: config_view(config),
                    state: state@,
                    ledger: views(entries@),
                };
                &&& v.wf() ==> (r matches Some(p) && p@ == v && p.wf())
                &&& !v.wf() ==> r is None
            }),
    {
        let ledger = match Ledger::from_entries(entries) {
            Some(ledger) => ledger,
            None => {
                return None;
            },
        };
        let pending = ledger.pending_sequences();
        if !same_numbers(&pending, &state.pending) {
            return None;
        }
        if state.status == Status::Idle && pending.len() != 0 {
            return None;
        }
        if state.status == Status::AwaitingAck && pending.len() == 0 {
            return None;
        }
        if config.is_none() && (ledger.len() != 0 || state.status != Status::Idle) {
            return None;
        }
        Some(Puppeteer { config, state, ledger })
    }

    /// The configuration, if the instance was initialised.
    pub fn config(&self) -> (r: Option<Config>)
        ensures
            config_view(r) == self@.config,
    {
        match &self.config {
            Some(c) => Some(c.duplicate()),
            None => None,
        }
    }

    /// The state record.
    pub fn state(&self) -> (r: State)
        ensures
            r@ == self@.state,
    {
        self.state.duplicate()
    }

    /// The ledger.
    pub fn ledger(&self) -> (r: &Ledger)
        ensures
            r@ == self@.ledger,
    {
        &self.ledger
    }

    /// Why `caller` may not change the instance, if so.
    fn check_owner(&self, caller: &str) -> (r: Option<ContractError>)
        ensures
            r == refusal(self@, caller@),
    {
        match &self.config {
            None => Some(ContractError::NotFound),
            Some(c) => {
                if c.is_owner(caller) {
                    None
                } else {
                    Some(ContractError::Unauthorized)
                }
            },
        }
    }

    /// Replaces the configuration. Only the owner may do so.
    pub fn update_config(&mut self, caller: &str, config: Config) -> (r: Result<(), ContractError>)
        requires
            old(self).wf(),
        ensures
            final(self).wf(),
            final(self)@ == spec_update_config(old(self)@, caller@, config@).0,
            r == spec_update_config(old(self)@, caller@, config@).1,
    {
        if let Some(e) = self.check_owner(caller) {
            return Err(e);
        }
        self.config = Some(config);
        Ok(())
    }

    /// Records an instruction that was dispatched under `sequence`, the
    /// number that the channel assigned to it.
    ///
    /// Only the owner may submit, and not while a resynchronisation is due.
    /// On success the ledger gains one pending entry and an idle engine
    /// starts to await acknowledgements; on refusal nothing changes.
    pub fn submit(
        &mut self,
        caller: &str,
        sequence: u64,
        instruction: Instruction,
        height: u64,
        time: u64,
    ) -> (r: Result<u64, ContractError>)
        requires
            old(self).wf(),
        ensures
            final(self).wf(),
            final(self)@ == spec_submit(old(self)@, caller@, sequence, instruction@, height, time).0,
            r == spec_submit(old(self)@, caller@, sequence, instruction@, height, time).1,
    {
        if let Some(e) = self.check_owner(caller) {
            return Err(e);
        }
        if self.state.status == Status::NeedsResync {
            return Err(ContractError::NeedsResync);
        }
        let ghost entry = pending_entry(sequence, instruction@, height, time);
        match self.ledger.record(sequence, instruction, height, time) {
            Err(e) => Err(e),
            Ok(s) => {
                self.state.pending.push(sequence);
                if self.state.status == Status::Idle {
                    self.state.status = Status::AwaitingAck;
                }
                proof {
                    lemma_pending_of_push(old(self)@.ledger, entry);
                }
                Ok(s)
            },
        }
    }

    /// Applies a channel event for the instruction dispatched under
    /// `sequence`.
    ///
    /// The matching pending entry becomes acknowledged on success and timed
    /// out on failure, and leaves the pending set. A successful event that
    /// carries a snapshot replaces the confirmed snapshot as a whole. A
    /// rejection makes a resynchronisation due; otherwise the engine is idle
    /// once nothing is pending. An event that matches no pending entry is
    /// ignored.
    pub fn on_ack(&mut self, sequence: u64, outcome: AckOutcome, payload: Option<Snapshot>) -> (r:
        AckDisposition)
        requires
            old(self).wf(),
            payload matches Some(s) ==> s.wf(),
        ensures
            final(self).wf(),
            final(self)@ == spec_on_ack(old(self)@, sequence, outcome, payload_view(payload)).0,
            r == spec_on_ack(old(self)@, sequence, outcome, payload_view(payload)).1,
    {
        let resolution = match outcome {
            AckOutcome::Success => Resolution::Acknowledged,
            AckOutcome::Timeout => Resolution::TimedOut,
            AckOutcome::Rejected => Resolution::TimedOut,
        };
        match self.ledger.resolve(sequence, resolution) {
            Err(_) => AckDisposition::Ignored,
            Ok(_) => {
                self.state.pending = self.ledger.pending_sequences();
                if outcome == AckOutcome::Success {
                    if let Some(s) = payload {
                        self.state.confirmed_snapshot = s;
                    }
                }
                if self.state.status == Status::NeedsResync || outcome == AckOutcome::Rejected {
                    self.state.status = Status::NeedsResync;
                } else if self.state.pending.len() == 0 {
                    self.state.status = Status::Idle;
                } else {
                    self.state.status = Status::AwaitingAck;
                }
                AckDisposition::Applied
            },
        }
    }

    /// Imposes an authoritative snapshot. Only the owner may do so.
    ///
    /// The confirmed snapshot is replaced, every entry still pending is
    /// closed as timed out, and the engine is idle again.
    pub fn resync(&mut self, caller: &str, snapshot: Snapshot) -> (r: Result<(), ContractError>)
        requires
            old(self).wf(),
            snapshot.wf(),
        ensures
            final(self).wf(),
            final(self)@ == spec_resync(old(self)@, caller@, snapshot@).0,
            r == spec_resync(old(self)@, caller@, snapshot@).1,
    {
        if let Some(e) = self.check_owner(caller) {
            return Err(e);
        }
        self.ledger.close_pending();
        self.state = State { confirmed_snapshot: snapshot, pending: Vec::new(), status: Status::Idle };
        proof {
            lemma_close_all_settles(old(self)@.ledger);
        }
        Ok(())
    }

    /// The best current estimate of delegated balances: the confirmed
    /// snapshot adjusted by the pending delegations and undelegations.
    /// With nothing pending it is the confirmed snapshot itself.
    pub fn current_estimate(&self) -> (r: DelegationsResponse)
        requires
            self.wf(),
        ensures
            r@ == projection(self@.state.confirmed_snapshot, self@.ledger),
            self@.state.pending.len() == 0 ==> r@.estimated_snapshot()
                == self@.state.confirmed_snapshot && r@.pending.len() == 0,
    {
        proof {
            lemma_pending_of_counts(self@.ledger);
        }
        project(&self.state.confirmed_snapshot, &self.ledger)
    }
}

} // verus!
