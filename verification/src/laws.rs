//! What holds of the engine over every run: the invariants of its state
//! and the laws that relate its operations.

use vstd::prelude::*;
use crate::config::ConfigView;
use crate::engine::{
    spec_on_ack, spec_resync, spec_submit, spec_update_config, refusal, AckDisposition,
    AckOutcome, PuppeteerView,
};
use crate::error::ContractError;
use crate::ledger::{
    contains_sequence, count_pending, has_pending, is_pending_at, lemma_close_all_settles,
    lemma_pending_index_unique, lemma_pending_of_counts, lemma_pending_of_push, pending_entry,
    pending_index, pending_of, resolved, unique_sequences, InstructionView, TransferView,
};
use crate::projector::{lemma_projection_of_settled, projection};
use crate::snapshot::{distinct_validators, DelegationView};

verus! {

/// One invocation that may change an instance.
pub enum Event {
    Submit {
        caller: Seq<char>,
        sequence: u64,
        instruction: InstructionView,
        height: u64,
        time: u64,
    },
    Ack { sequence: u64, outcome: AckOutcome, payload: Option<Seq<DelegationView>> },
    Resync { caller: Seq<char>, snapshot: Seq<DelegationView> },
    UpdateConfig { caller: Seq<char>, config: ConfigView },
}

impl Event {
    /// Whether the event carries only well-formed snapshots.
    pub open spec fn wf(self) -> bool {
        match self {
            Event::Ack { payload, .. } => payload is Some ==> distinct_validators(payload.unwrap()),
            Event::Resync { snapshot, .. } => distinct_validators(snapshot),
            _ => true,
        }
    }
}

/// The instance after one event.
pub open spec fn step(pre: PuppeteerView, event: Event) -> PuppeteerView {
    match event {
        Event::Submit { caller, sequence, instruction, height, time } => spec_submit(
            pre,
            caller,
            sequence,
            instruction,
            height,
            time,
        ).0,
        Event::Ack { sequence, outcome, payload } => spec_on_ack(pre, sequence, outcome, payload).0,
        Event::Resync { caller, snapshot } => spec_resync(pre, caller, snapshot).0,
        Event::UpdateConfig { caller, config } => spec_update_config(pre, caller, config).0,
    }
}

/// The instance after a run of events, applied in order.
pub open spec fn run(pre: PuppeteerView, events: Seq<Event>) -> PuppeteerView
    decreases events.len(),
{
    if events.len() == 0 {
        pre
    } else {
        step(run(pre, events.drop_last()), events.last())
    }
}

/// Resolving the pending entry of `sequence` keeps the sequence numbers
/// unique and leaves no pending entry under that number.
proof fn lemma_resolve_keeps_unique(l: Seq<TransferView>, sequence: u64, outcome: AckOutcome)
    requires
        unique_sequences(l),
        has_pending(l, sequence),
    ensures
        ({
            let i = pending_index(l, sequence);
            let after = l.update(i, resolved(l[i], crate::engine::resolution_of(outcome)));
            &&& is_pending_at(l, sequence, i)
            &&& unique_sequences(after)
            &&& !has_pending(after, sequence)
            &&& forall|other: u64, j: int|
                other != sequence ==> (is_pending_at(after, other, j) <==> is_pending_at(
                    l,
                    other,
                    j,
                ))
        }),
{
    let i = pending_index(l, sequence);
    assert(is_pending_at(l, sequence, i));
    let after = l.update(i, resolved(l[i], crate::engine::resolution_of(outcome)));
    assert forall|a: int, b: int| 0 <= a < b < after.len() implies (#[trigger] after[a]).sequence != (
    #[trigger] after[b]).sequence by {
        assert(l[a].sequence != l[b].sequence);
    }
    if has_pending(after, sequence) {
        let j = choose|j: int| is_pending_at(after, sequence, j);
        assert(is_pending_at(after, sequence, j));
        assert(j != i);
        assert(is_pending_at(l, sequence, j));
        lemma_pending_index_unique(l, sequence, j);
    }
}

/// Every operation keeps an instance well-formed: whatever the event, the
/// sequence numbers stay unique, the pending set stays the set of the
/// pending ledger entries, and the status stays in step with it.
pub proof fn law_step_preserves_invariant(pre: PuppeteerView, event: Event)
    requires
        pre.wf(),
        event.wf(),
    ensures
        step(pre, event).wf(),
{
    match event {
        Event::Submit { caller, sequence, instruction, height, time } => {
            let entry = pending_entry(sequence, instruction, height, time);
            lemma_pending_of_push(pre.ledger, entry);
            if spec_submit(pre, caller, sequence, instruction, height, time).1 is Ok {
                let after = pre.ledger.push(entry);
                assert forall|a: int, b: int| 0 <= a < b < after.len() implies (
                #[trigger] after[a]).sequence != (#[trigger] after[b]).sequence by {
                    if b < pre.ledger.len() {
                        assert(pre.ledger[a].sequence != pre.ledger[b].sequence);
                    } else {
                        assert(pre.ledger[a].sequence != sequence);
                    }
                }
            }
        },
        Event::Ack { sequence, outcome, payload } => {
            if has_pending(pre.ledger, sequence) {
                lemma_resolve_keeps_unique(pre.ledger, sequence, outcome);
            }
        },
        Event::Resync { caller, snapshot } => {
            lemma_close_all_settles(pre.ledger);
        },
        Event::UpdateConfig { caller, config } => {},
    }
}

/// The invariant holds at every point of every run.
pub proof fn law_run_preserves_invariant(pre: PuppeteerView, events: Seq<Event>)
    requires
        pre.wf(),
        forall|i: int| 0 <= i < events.len() ==> (#[trigger] events[i]).wf(),
    ensures
        run(pre, events).wf(),
    decreases events.len(),
{
    if events.len() > 0 {
        law_run_preserves_invariant(pre, events.drop_last());
        law_step_preserves_invariant(run(pre, events.drop_last()), events.last());
    }
}

/// In a well-formed instance the pending set has exactly one member per
/// pending ledger entry: its size is the number of pending entries, and a
/// sequence number is in it exactly when a pending entry carries it.
pub proof fn law_pending_set_is_pending_entries(p: PuppeteerView)
    requires
        p.wf(),
    ensures
        p.state.pending.len() == count_pending(p.ledger),
        p.state.pending_set().len() == count_pending(p.ledger),
        forall|s: u64| p.state.pending_set().contains(s) <==> has_pending(p.ledger, s),
{
    lemma_pending_of_counts(p.ledger);
    lemma_pending_of_distinct(p.ledger);
    p.state.pending.unique_seq_to_set();
    assert forall|s: u64| p.state.pending_set().contains(s) <==> has_pending(p.ledger, s) by {
        assert(p.state.pending_set().contains(s) <==> p.state.pending.contains(s));
    }
}

/// With unique sequence numbers, no pending number occurs twice.
proof fn lemma_pending_of_distinct(l: Seq<TransferView>)
    requires
        unique_sequences(l),
    ensures
        pending_of(l).no_duplicates(),
    decreases l.len(),
{
    if l.len() > 0 {
        let front = l.drop_last();
        assert(unique_sequences(front)) by {
            assert forall|a: int, b: int| 0 <= a < b < front.len() implies (
            #[trigger] front[a]).sequence != (#[trigger] front[b]).sequence by {
                assert(l[a].sequence != l[b].sequence);
            }
        }
        lemma_pending_of_distinct(front);
        lemma_pending_of_counts(front);
        if l.last().status is Pending {
            let s = l.last().sequence;
            if pending_of(front).contains(s) {
                assert(has_pending(front, s));
                let i = choose|i: int| is_pending_at(front, s, i);
                assert(is_pending_at(front, s, i));
                assert(l[i].sequence != l[l.len() - 1].sequence);
            }
            assert forall|a: int, b: int|
                0 <= a < pending_of(l).len() && 0 <= b < pending_of(l).len() && a
                    != b implies pending_of(l)[a] != pending_of(l)[b] by {
                let n = pending_of(front).len();
                if a < n && b < n {
                    assert(pending_of(front)[a] != pending_of(front)[b]);
                } else if a < n {
                    assert(pending_of(front)[a] == pending_of(l)[a]);
                    assert(pending_of(front).contains(pending_of(front)[a]));
                } else {
                    assert(pending_of(front)[b] == pending_of(l)[b]);
                    assert(pending_of(front).contains(pending_of(front)[b]));
                }
            }
        }
    }
}

/// While no resynchronisation is due, a submission by the owner under a
/// number that the ledger does not hold is accepted; every accepted
/// submission returns a number that no earlier entry carries and appends
/// one pending entry under it, and the pending set grows by that number. A
/// refused submission changes nothing.
pub proof fn law_submit_adds_new_pending_entry(
    pre: PuppeteerView,
    caller: Seq<char>,
    sequence: u64,
    instruction: InstructionView,
    height: u64,
    time: u64,
)
    requires
        pre.wf(),
        !(pre.state.status is NeedsResync),
    ensures
        ({
            let (post, r) = spec_submit(pre, caller, sequence, instruction, height, time);
            &&& post.wf()
            &&& (r is Ok <==> refusal(pre, caller) is None && !contains_sequence(
                pre.ledger,
                sequence,
            ))
            &&& r is Err ==> post == pre
            &&& r is Ok ==> {
                &&& r == Ok::<u64, ContractError>(sequence)
                &&& !contains_sequence(pre.ledger, sequence)
                &&& post.ledger == pre.ledger.push(
                    pending_entry(sequence, instruction, height, time),
                )
                &&& post.ledger.last().sequence == sequence
                &&& post.ledger.last().status is Pending
                &&& post.state.pending == pre.state.pending.push(sequence)
                &&& post.state.pending.len() == count_pending(post.ledger)
                &&& count_pending(post.ledger) == count_pending(pre.ledger) + 1
            }
        }),
{
    let event = Event::Submit { caller, sequence, instruction, height, time };
    law_step_preserves_invariant(pre, event);
    let post = step(pre, event);
    lemma_pending_of_push(pre.ledger, pending_entry(sequence, instruction, height, time));
    lemma_pending_of_counts(post.ledger);
}

/// Delivering an acknowledgement a second time changes nothing: after the
/// first application no pending entry carries the number, so the second is
/// ignored and the instance is what the first left.
pub proof fn law_ack_is_idempotent(
    pre: PuppeteerView,
    sequence: u64,
    outcome: AckOutcome,
    payload: Option<Seq<DelegationView>>,
)
    requires
        pre.wf(),
    ensures
        ({
            let first = spec_on_ack(pre, sequence, outcome, payload);
            let second = spec_on_ack(first.0, sequence, outcome, payload);
            &&& second.0 == first.0
            &&& second.1 == AckDisposition::Ignored
        }),
{
    if has_pending(pre.ledger, sequence) {
        lemma_resolve_keeps_unique(pre.ledger, sequence, outcome);
    }
}

/// Two pending instructions may be acknowledged in either order: both
/// orders give the same ledger, the same pending set, the same status and
/// the same confirmed snapshot, provided the two acknowledgements do not
/// carry different snapshots.
pub proof fn law_ack_order_is_irrelevant(
    pre: PuppeteerView,
    a: u64,
    b: u64,
    payload_a: Option<Seq<DelegationView>>,
    payload_b: Option<Seq<DelegationView>>,
)
    requires
        pre.wf(),
        a != b,
        has_pending(pre.ledger, a),
        has_pending(pre.ledger, b),
        payload_a is Some && payload_b is Some ==> payload_a == payload_b,
    ensures
        spec_on_ack(spec_on_ack(pre, a, AckOutcome::Success, payload_a).0, b, AckOutcome::Success, payload_b).0
            == spec_on_ack(
            spec_on_ack(pre, b, AckOutcome::Success, payload_b).0,
            a,
            AckOutcome::Success,
            payload_a,
        ).0,
{
    let ok = AckOutcome::Success;
    let ia = pending_index(pre.ledger, a);
    let ib = pending_index(pre.ledger, b);
    lemma_resolve_keeps_unique(pre.ledger, a, ok);
    lemma_resolve_keeps_unique(pre.ledger, b, ok);
    assert(ia != ib);
    let after_a = spec_on_ack(pre, a, ok, payload_a).0;
    let after_b = spec_on_ack(pre, b, ok, payload_b).0;
    assert(is_pending_at(after_a.ledger, b, ib));
    assert(is_pending_at(after_b.ledger, a, ia));
    lemma_pending_index_unique(after_a.ledger, b, ib);
    lemma_pending_index_unique(after_b.ledger, a, ia);
    let ab = spec_on_ack(after_a, b, ok, payload_b).0;
    let ba = spec_on_ack(after_b, a, ok, payload_a).0;
    assert(ab.ledger =~= ba.ledger);
}

/// With nothing pending, the estimate is the confirmed snapshot: the same
/// validators in the same order, each estimated figure equal to the
/// confirmed one.
pub proof fn law_estimate_without_pending_is_snapshot(p: PuppeteerView)
    requires
        p.wf(),
        p.state.pending.len() == 0,
    ensures
        projection(p.state.confirmed_snapshot, p.ledger).estimated_snapshot()
            == p.state.confirmed_snapshot,
        projection(p.state.confirmed_snapshot, p.ledger).confirmed_snapshot()
            == p.state.confirmed_snapshot,
        projection(p.state.confirmed_snapshot, p.ledger).pending.len() == 0,
{
    lemma_pending_of_counts(p.ledger);
    lemma_projection_of_settled(p.state.confirmed_snapshot, p.ledger);
}

/// A rejection of a pending instruction makes a resynchronisation due.
pub proof fn law_rejection_needs_resync(
    pre: PuppeteerView,
    sequence: u64,
    payload: Option<Seq<DelegationView>>,
)
    requires
        pre.wf(),
        has_pending(pre.ledger, sequence),
    ensures
        spec_on_ack(pre, sequence, AckOutcome::Rejected, payload).1 == AckDisposition::Applied,
        spec_on_ack(pre, sequence, AckOutcome::Rejected, payload).0.state.status
            == crate::state::Status::NeedsResync,
{
}

/// While a resynchronisation is due, every submission fails and changes
/// nothing; a submission by the owner fails because the resynchronisation
/// is due.
pub proof fn law_needs_resync_refuses_submit(
    pre: PuppeteerView,
    caller: Seq<char>,
    sequence: u64,
    instruction: InstructionView,
    height: u64,
    time: u64,
)
    requires
        pre.wf(),
        pre.state.status is NeedsResync,
    ensures
        ({
            let (post, r) = spec_submit(pre, caller, sequence, instruction, height, time);
            &&& post == pre
            &&& r is Err
            &&& pre.config is Some
            &&& pre.config.unwrap().owner == caller ==> r == Err::<u64, ContractError>(
                ContractError::NeedsResync,
            )
        }),
{
}

/// A due resynchronisation stays due over every run that holds no
/// resynchronisation by the owner.
pub proof fn law_needs_resync_lasts_until_resync(pre: PuppeteerView, events: Seq<Event>)
    requires
        pre.wf(),
        pre.state.status is NeedsResync,
        forall|i: int|
            0 <= i < events.len() ==> !((#[trigger] events[i]) is Resync && refusal(
                run(pre, events.take(i)),
                events[i]->Resync_caller,
            ) is None),
    ensures
        run(pre, events).state.status is NeedsResync,
    decreases events.len(),
{
    if events.len() > 0 {
        let front = events.drop_last();
        assert forall|i: int| 0 <= i < front.len() implies !((#[trigger] front[i]) is Resync
            && refusal(run(pre, front.take(i)), front[i]->Resync_caller) is None) by {
            assert(front[i] == events[i]);
            assert(front.take(i) =~= events.take(i));
        }
        law_needs_resync_lasts_until_resync(pre, front);
        assert(events.take(events.len() - 1) =~= front);
    }
}

/// A resynchronisation by the owner imposes the snapshot and leaves the
/// engine idle with nothing pending, so that submissions are accepted again.
pub proof fn law_resync_clears(pre: PuppeteerView, caller: Seq<char>, snapshot: Seq<DelegationView>)
    requires
        pre.wf(),
        distinct_validators(snapshot),
        refusal(pre, caller) is None,
    ensures
        ({
            let (post, r) = spec_resync(pre, caller, snapshot);
            &&& r is Ok
            &&& post.wf()
            &&& post.state.status == crate::state::Status::Idle
            &&& post.state.confirmed_snapshot == snapshot
            &&& post.state.pending.len() == 0
            &&& count_pending(post.ledger) == 0
        }),
{
    lemma_close_all_settles(pre.ledger);
}

} // verus!
