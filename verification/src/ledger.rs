//! The transaction ledger: an append-only record of every outbound
//! instruction and of how it was resolved.

use vstd::prelude::*;
use crate::error::ContractError;

verus! {

/// What an instruction asks the remote chain to do.
#[derive(Clone, Copy, Debug, PartialEq, Eq, Structural)]
pub enum InstructionKind {
    Delegate,
    Undelegate,
    Redeem,
    Transfer,
}

/// Where a ledger entry stands in its lifecycle.
#[derive(Clone, Copy, Debug, PartialEq, Eq, Structural)]
pub enum TransferStatus {
    /// Dispatched, no channel event seen yet.
    Pending,
    /// The remote chain confirmed the instruction.
    Acknowledged,
    /// The instruction failed or its fate is unknown.
    TimedOut,
}

/// The terminal status a pending entry moves to.
#[derive(Clone, Copy, Debug, PartialEq, Eq, Structural)]
pub enum Resolution {
    Acknowledged,
    TimedOut,
}

/// An instruction as the caller hands it in.
#[derive(Clone, Debug, PartialEq, Eq)]
pub struct Instruction {
    pub kind: InstructionKind,
    /// The validator or the recipient.
    pub target: String,
    pub amount: u128,
}

/// Mathematical model of an [`Instruction`].
pub struct InstructionView {
    pub kind: InstructionKind,
    pub target: Seq<char>,
    pub amount: u128,
}

impl View for Instruction {
    type V = InstructionView;

    open spec fn view(&self) -> InstructionView {
        InstructionView { kind: self.kind, target: self.target@, amount: self.amount }
    }
}

/// One ledger entry.
#[derive(Clone, Debug, PartialEq, Eq)]
pub struct Transfer {
    /// The channel sequence number assigned by the dispatch layer.
    pub sequence: u64,
    pub kind: InstructionKind,
    pub target: String,
    pub amount: u128,
    /// Height and time of submission.
    pub height: u64,
    pub time: u64,
    pub status: TransferStatus,
}

/// Mathematical model of a [`Transfer`].
pub struct TransferView {
    pub sequence: u64,
    pub kind: InstructionKind,
    pub target: Seq<char>,
    pub amount: u128,
    pub height: u64,
    pub time: u64,
    pub status: TransferStatus,
}

impl View for Transfer {
    type V = TransferView;

    open spec fn view(&self) -> TransferView {
        TransferView {
            sequence: self.sequence,
            kind: self.kind,
            target: self.target@,
            amount: self.amount,
            height: self.height,
            time: self.time,
            status: self.status,
        }
    }
}

impl Transfer {
    /// A copy of this entry.
    pub fn duplicate(&self) -> (r: Transfer)
        ensures
            r == *self,
    {
        Transfer {
            sequence: self.sequence,
            kind: self.kind,
            target: self.target.clone(),
            amount: self.amount,
            height: self.height,
            time: self.time,
            status: self.status,
        }
    }
}

/// The entry that recording an instruction appends.
pub open spec fn pending_entry(
    sequence: u64,
    instruction: InstructionView,
    height: u64,
    time: u64,
) -> TransferView {
    TransferView {
        sequence,
        kind: instruction.kind,
        target: instruction.target,
        amount: instruction.amount,
        height,
        time,
        status: TransferStatus::Pending,
    }
}

/// The status that a resolution stands for.
pub open spec fn status_of(resolution: Resolution) -> TransferStatus {
    match resolution {
        Resolution::Acknowledged => TransferStatus::Acknowledged,
        Resolution::TimedOut => TransferStatus::TimedOut,
    }
}

/// The entry `t` after it has been resolved: only its status changes.
pub open spec fn resolved(t: TransferView, resolution: Resolution) -> TransferView {
    TransferView { status: status_of(resolution), ..t }
}

/// No two entries share a sequence number.
pub open spec fn unique_sequences(l: Seq<TransferView>) -> bool {
    forall|i: int, j: int|
        0 <= i < j < l.len() ==> (#[trigger] l[i]).sequence != (#[trigger] l[j]).sequence
}

/// Some entry, of whatever status, carries `sequence`.
pub open spec fn contains_sequence(l: Seq<TransferView>, sequence: u64) -> bool {
    exists|i: int| 0 <= i < l.len() && (#[trigger] l[i]).sequence == sequence
}

/// Entry `i` is pending and carries `sequence`.
pub open spec fn is_pending_at(l: Seq<TransferView>, sequence: u64, i: int) -> bool {
    &&& 0 <= i < l.len()
    &&& l[i].sequence == sequence
    &&& l[i].status is Pending
}

/// Some pending entry carries `sequence`.
pub open spec fn has_pending(l: Seq<TransferView>, sequence: u64) -> bool {
    exists|i: int| is_pending_at(l, sequence, i)
}

/// The index of the pending entry that carries `sequence`, where there is one.
pub open spec fn pending_index(l: Seq<TransferView>, sequence: u64) -> int {
    choose|i: int| is_pending_at(l, sequence, i)
}

/// The sequence numbers of the pending entries, in submission order.
pub open spec fn pending_of(l: Seq<TransferView>) -> Seq<u64>
    decreases l.len(),
{
    if l.len() == 0 {
        Seq::empty()
    } else if l.last().status is Pending {
        pending_of(l.drop_last()).push(l.last().sequence)
    } else {
        pending_of(l.drop_last())
    }
}

/// How many entries are pending.
pub open spec fn count_pending(l: Seq<TransferView>) -> nat
    decreases l.len(),
{
    if l.len() == 0 {
        0
    } else if l.last().status is Pending {
        count_pending(l.drop_last()) + 1
    } else {
        count_pending(l.drop_last())
    }
}

/// Whether an entry passes a status filter; no filter lets every entry pass.
pub open spec fn passes(t: TransferView, filter: Option<TransferStatus>) -> bool {
    match filter {
        Some(status) => t.status == status,
        None => true,
    }
}

/// The entries that pass `filter`, in submission order.
pub open spec fn select(l: Seq<TransferView>, filter: Option<TransferStatus>) -> Seq<TransferView>
    decreases l.len(),
{
    if l.len() == 0 {
        Seq::empty()
    } else if passes(l.last(), filter) {
        select(l.drop_last(), filter).push(l.last())
    } else {
        select(l.drop_last(), filter)
    }
}

/// The models of a sequence of entries.
pub open spec fn views(entries: Seq<Transfer>) -> Seq<TransferView> {
    Seq::new(entries.len(), |i: int| entries[i]@)
}

/// In a ledger with unique sequence numbers, the pending entry that carries
/// a given number is the only entry that carries it.
pub proof fn lemma_pending_index_unique(l: Seq<TransferView>, sequence: u64, i: int)
    requires
        unique_sequences(l),
        is_pending_at(l, sequence, i),
    ensures
        has_pending(l, sequence),
        pending_index(l, sequence) == i,
{
    let j = pending_index(l, sequence);
    assert(is_pending_at(l, sequence, j));
    if i < j {
        assert(l[i].sequence != l[j].sequence);
    }
    if j < i {
        assert(l[j].sequence != l[i].sequence);
    }
}

/// Appending an entry extends the pending numbers exactly when it is pending.
pub proof fn lemma_pending_of_push(l: Seq<TransferView>, t: TransferView)
    ensures
        pending_of(l.push(t)) == if t.status is Pending {
            pending_of(l).push(t.sequence)
        } else {
            pending_of(l)
        },
        count_pending(l.push(t)) == if t.status is Pending {
            count_pending(l) + 1
        } else {
            count_pending(l)
        },
{
    assert(l.push(t).drop_last() =~= l);
}

/// Appending an entry extends a selection exactly when the entry passes.
pub proof fn lemma_select_push(l: Seq<TransferView>, t: TransferView, filter: Option<TransferStatus>)
    ensures
        select(l.push(t), filter) == if passes(t, filter) {
            select(l, filter).push(t)
        } else {
            select(l, filter)
        },
{
    assert(l.push(t).drop_last() =~= l);
}

/// The ledger with every pending entry closed as timed out.
pub open spec fn close_all(l: Seq<TransferView>) -> Seq<TransferView> {
    Seq::new(
        l.len(),
        |i: int|
            if l[i].status is Pending {
                resolved(l[i], Resolution::TimedOut)
            } else {
                l[i]
            },
    )
}

/// There are as many pending sequence numbers as pending entries, and each
/// of them is the number of a pending entry.
pub proof fn lemma_pending_of_counts(l: Seq<TransferView>)
    ensures
        pending_of(l).len() == count_pending(l),
        forall|s: u64|
            #![trigger pending_of(l).contains(s)]
            #![trigger has_pending(l, s)]
            pending_of(l).contains(s) <==> has_pending(l, s),
    decreases l.len(),
{
    if l.len() == 0 {
        assert forall|s: u64|
            #![trigger pending_of(l).contains(s)]
            #![trigger has_pending(l, s)]
            pending_of(l).contains(s) <==> has_pending(l, s) by {
            if has_pending(l, s) {
                let i = choose|i: int| is_pending_at(l, s, i);
                assert(is_pending_at(l, s, i));
            }
        }
    } else {
        let front = l.drop_last();
        lemma_pending_of_counts(front);
        assert forall|s: u64|
            #![trigger pending_of(l).contains(s)]
            #![trigger has_pending(l, s)]
            pending_of(l).contains(s) <==> has_pending(l, s) by {
            if pending_of(l).contains(s) {
                let k = choose|k: int| 0 <= k < pending_of(l).len() && pending_of(l)[k] == s;
                if l.last().status is Pending && k == pending_of(front).len() {
                    assert(is_pending_at(l, s, l.len() - 1));
                } else {
                    assert(pending_of(front)[k] == s);
                    assert(pending_of(front).contains(s));
                    let i = choose|i: int| is_pending_at(front, s, i);
                    assert(is_pending_at(front, s, i));
                    assert(is_pending_at(l, s, i));
                }
            }
            if has_pending(l, s) {
                let i = choose|i: int| is_pending_at(l, s, i);
                assert(is_pending_at(l, s, i));
                if i == l.len() - 1 {
                    assert(pending_of(l)[pending_of(front).len() as int] == s);
                } else {
                    assert(is_pending_at(front, s, i));
                    assert(pending_of(front).contains(s));
                    let k = choose|k: int| 0 <= k < pending_of(front).len() && pending_of(front)[k] == s;
                    assert(pending_of(l)[k] == s);
                }
            }
        }
    }
}

/// Closing every pending entry leaves none pending and keeps the sequence
/// numbers.
pub proof fn lemma_close_all_settles(l: Seq<TransferView>)
    ensures
        pending_of(close_all(l)) == Seq::<u64>::empty(),
        count_pending(close_all(l)) == 0,
        unique_sequences(l) ==> unique_sequences(close_all(l)),
    decreases l.len(),
{
    if l.len() > 0 {
        lemma_close_all_settles(l.drop_last());
        assert(close_all(l).drop_last() =~= close_all(l.drop_last()));
    }
    if unique_sequences(l) {
        assert forall|i: int, j: int| 0 <= i < j < close_all(l).len() implies (#[trigger] close_all(
            l,
        )[i]).sequence != (#[trigger] close_all(l)[j]).sequence by {
            assert(l[i].sequence != l[j].sequence);
        }
    }
}

/// The append-only ledger of outbound instructions.
///
/// Entries stand in submission order and none is ever removed.
#[derive(Clone, Debug, PartialEq, Eq)]
pub struct Ledger {
    entries: Vec<Transfer>,
}

impl View for Ledger {
    type V = Seq<TransferView>;

    closed spec fn view(&self) -> Seq<TransferView> {
        views(self.entries@)
    }
}

impl Ledger {
    /// Well-formedness: sequence numbers are unique.
    pub open spec fn wf(&self) -> bool {
        unique_sequences(self@)
    }

    /// An empty ledger.
    pub fn new() -> (r: Ledger)
        ensures
            r@ == Seq::<TransferView>::empty(),
            r.wf(),
    {
        let r = Ledger { entries: Vec::new() };
        assert(r@ =~= Seq::<TransferView>::empty());
        r
    }

    /// The ledger that holds `entries` in their order, unless two of them
    /// share a sequence number.
    pub fn from_entries(entries: Vec<Transfer>) -> (r: Option<Ledger>)
        ensures
            unique_sequences(views(entries@)) ==> (r matches Some(l) && l@ == views(entries@)
                && l.wf()),
            !unique_sequences(views(entries@)) ==> r is None,
    {
        let ghost l = views(entries@);
        let mut j: usize = 0;
        while j < entries.len()
            invariant
                j <= entries.len(),
                l == views(entries@),
                forall|a: int, b: int|
                    0 <= a < b < j ==> (#[trigger] l[a]).sequence != (#[trigger] l[b]).sequence,
            decreases entries.len() - j,
        {
            let mut i: usize = 0;
            while i < j
                invariant
                    i <= j,
                    j < entries.len(),
                    l == views(entries@),
                    forall|a: int| 0 <= a < i ==> (#[trigger] l[a]).sequence != l[j as int].sequence,
                decreases j - i,
            {
                if entries[i].sequence == entries[j].sequence {
                    assert(l[i as int].sequence == l[j as int].sequence);
                    return None;
                }
                i += 1;
            }
            j += 1;
        }
        Some(Ledger { entries })
    }

    /// The number of entries.
    pub fn len(&self) -> (n: usize)
        ensures
            n == self@.len(),
    {
        self.entries.len()
    }

    /// The entry at position `i` in submission order.
    pub fn get(&self, i: usize) -> (r: Option<Transfer>)
        ensures
            i < self@.len() ==> (r matches Some(t) && t@ == self@[i as int]),
            i >= self@.len() ==> r is None,
    {
        if i < self.entries.len() {
            Some(self.entries[i].duplicate())
        } else {
            None
        }
    }

    /// The entry at position `i`, borrowed.
    pub(crate) fn entry_ref(&self, i: usize) -> (r: &Transfer)
        requires
            i < self@.len(),
        ensures
            r@ == self@[i as int],
    {
        &self.entries[i]
    }

    /// Whether some entry carries `sequence`.
    pub fn contains(&self, sequence: u64) -> (r: bool)
        ensures
            r == contains_sequence(self@, sequence),
    {
        let mut i: usize = 0;
        while i < self.entries.len()
            invariant
                i <= self.entries.len(),
                forall|j: int| 0 <= j < i ==> (#[trigger] self@[j]).sequence != sequence,
            decreases self.entries.len() - i,
        {
            if self.entries[i].sequence == sequence {
                assert(self@[i as int].sequence == sequence);
                return true;
            }
            i += 1;
        }
        false
    }

    /// The position of the pending entry that carries `sequence`.
    pub fn pending_position(&self, sequence: u64) -> (r: Option<usize>)
        requires
            self.wf(),
        ensures
            has_pending(self@, sequence) ==> r == Some(pending_index(self@, sequence) as usize),
            !has_pending(self@, sequence) ==> r is None,
            r matches Some(i) ==> is_pending_at(self@, sequence, i as int),
    {
        let mut i: usize = 0;
        while i < self.entries.len()
            invariant
                i <= self.entries.len(),
                self.wf(),
                forall|j: int| 0 <= j < i ==> !is_pending_at(self@, sequence, j),
            decreases self.entries.len() - i,
        {
            if self.entries[i].sequence == sequence && self.entries[i].status
                == TransferStatus::Pending {
                proof {
                    lemma_pending_index_unique(self@, sequence, i as int);
                }
                return Some(i);
            }
            i += 1;
        }
        None
    }

    /// Appends a pending entry for `instruction` under the sequence number
    /// that the dispatch layer assigned, unless the number is already taken.
    pub fn record(&mut self, sequence: u64, instruction: Instruction, height: u64, time: u64) -> (r:
        Result<u64, ContractError>)
        requires
            old(self).wf(),
        ensures
            final(self).wf(),
            contains_sequence(old(self)@, sequence) ==> r == Err::<u64, ContractError>(
                ContractError::DuplicateSequence,
            ) && final(self)@ == old(self)@,
            !contains_sequence(old(self)@, sequence) ==> r == Ok::<u64, ContractError>(sequence)
                && final(self)@ == old(self)@.push(
                pending_entry(sequence, instruction@, height, time),
            ),
    {
        if self.contains(sequence) {
            return Err(ContractError::DuplicateSequence);
        }
        let ghost entry = pending_entry(sequence, instruction@, height, time);
        self.entries.push(
            Transfer {
                sequence,
                kind: instruction.kind,
                target: instruction.target,
                amount: instruction.amount,
                height,
                time,
                status: TransferStatus::Pending,
            },
        );
        proof {
            assert(self@ =~= old(self)@.push(entry));
            assert forall|i: int, j: int| 0 <= i < j < self@.len() implies (#[trigger] self@[i]).sequence
                != (#[trigger] self@[j]).sequence by {
                if j < old(self)@.len() {
                    assert(old(self)@[i].sequence != old(self)@[j].sequence);
                } else {
                    assert(old(self)@[i].sequence != sequence);
                }
            }
        }
        Ok(sequence)
    }

    /// Moves the pending entry that carries `sequence` to its terminal
    /// status; any other entry, and any entry already resolved, stays as it is.
    pub fn resolve(&mut self, sequence: u64, resolution: Resolution) -> (r: Result<(), ContractError>)
        requires
            old(self).wf(),
        ensures
            final(self).wf(),
            has_pending(old(self)@, sequence) ==> r is Ok && final(self)@ == old(self)@.update(
                pending_index(old(self)@, sequence),
                resolved(old(self)@[pending_index(old(self)@, sequence)], resolution),
            ),
            !has_pending(old(self)@, sequence) ==> r == Err::<(), ContractError>(
                ContractError::UnknownSequence,
            ) && final(self)@ == old(self)@,
    {
        match self.pending_position(sequence) {
            None => Err(ContractError::UnknownSequence),
            Some(i) => {
                let status = match resolution {
                    Resolution::Acknowledged => TransferStatus::Acknowledged,
                    Resolution::TimedOut => TransferStatus::TimedOut,
                };
                let entry = &self.entries[i];
                let updated = Transfer {
                    sequence: entry.sequence,
                    kind: entry.kind,
                    target: entry.target.clone(),
                    amount: entry.amount,
                    height: entry.height,
                    time: entry.time,
                    status,
                };
                self.entries.set(i, updated);
                proof {
                    let before = old(self)@;
                    assert(self@ =~= before.update(i as int, resolved(before[i as int], resolution)));
                    assert forall|a: int, b: int| 0 <= a < b < self@.len() implies (
                    #[trigger] self@[a]).sequence != (#[trigger] self@[b]).sequence by {
                        assert(before[a].sequence != before[b].sequence);
                    }
                }
                Ok(())
            },
        }
    }

    /// Closes every pending entry as timed out.
    pub fn close_pending(&mut self)
        requires
            old(self).wf(),
        ensures
            final(self).wf(),
            final(self)@ == close_all(old(self)@),
    {
        let mut i: usize = 0;
        while i < self.entries.len()
            invariant
                i <= self.entries.len(),
                self@.len() == old(self)@.len(),
                forall|j: int| 0 <= j < i ==> self@[j] == close_all(old(self)@)[j],
                forall|j: int| i <= j < self@.len() ==> self@[j] == old(self)@[j],
            decreases self.entries.len() - i,
        {
            let ghost before = self@;
            assert(before[i as int] == old(self)@[i as int]);
            if self.entries[i].status == TransferStatus::Pending {
                let entry = &self.entries[i];
                let updated = Transfer {
                    sequence: entry.sequence,
                    kind: entry.kind,
                    target: entry.target.clone(),
                    amount: entry.amount,
                    height: entry.height,
                    time: entry.time,
                    status: TransferStatus::TimedOut,
                };
                self.entries.set(i, updated);
                assert(self@ =~= before.update(
                    i as int,
                    resolved(before[i as int], Resolution::TimedOut),
                ));
            }
            proof {
                assert(self@[i as int] == close_all(old(self)@)[i as int]);
                assert forall|j: int| 0 <= j < i + 1 implies self@[j] == close_all(
                    old(self)@,
                )[j] by {
                    if j < i {
                        assert(before[j] == close_all(old(self)@)[j]);
                    }
                }
                assert forall|j: int| i + 1 <= j < self@.len() implies self@[j] == old(
                    self,
                )@[j] by {
                    assert(before[j] == old(self)@[j]);
                }
            }
            i += 1;
        }
        proof {
            assert(self@ =~= close_all(old(self)@));
            lemma_close_all_settles(old(self)@);
        }
    }

    /// The entries that pass `filter`, in submission order; without a filter,
    /// the whole ledger.
    pub fn list(&self, filter: Option<TransferStatus>) -> (r: Vec<Transfer>)
        ensures
            views(r@) == select(self@, filter),
    {
        let mut out: Vec<Transfer> = Vec::new();
        let mut i: usize = 0;
        assert(self@.take(0) =~= Seq::<TransferView>::empty());
        assert(views(out@) =~= Seq::<TransferView>::empty());
        while i < self.entries.len()
            invariant
                i <= self.entries.len(),
                views(out@) == select(self@.take(i as int), filter),
            decreases self.entries.len() - i,
        {
            let entry = &self.entries[i];
            let keep = match filter {
                Some(status) => entry.status == status,
                None => true,
            };
            proof {
                lemma_select_push(self@.take(i as int), self@[i as int], filter);
                assert(self@.take(i as int).push(self@[i as int]) =~= self@.take(i + 1));
            }
            if keep {
                let ghost before = out@;
                out.push(entry.duplicate());
                assert(views(out@) =~= views(before).push(self@[i as int]));
            }
            i += 1;
        }
        assert(self@.take(i as int) =~= self@);
        out
    }

    /// The sequence numbers of the pending entries, in submission order.
    pub fn pending_sequences(&self) -> (r: Vec<u64>)
        ensures
            r@ == pending_of(self@),
    {
        let mut out: Vec<u64> = Vec::new();
        let mut i: usize = 0;
        assert(self@.take(0) =~= Seq::<TransferView>::empty());
        while i < self.entries.len()
            invariant
                i <= self.entries.len(),
                out@ == pending_of(self@.take(i as int)),
            decreases self.entries.len() - i,
        {
            proof {
                lemma_pending_of_push(self@.take(i as int), self@[i as int]);
                assert(self@.take(i as int).push(self@[i as int]) =~= self@.take(i + 1));
            }
            if self.entries[i].status == TransferStatus::Pending {
                out.push(self.entries[i].sequence);
            }
            i += 1;
        }
        assert(self@.take(i as int) =~= self@);
        out
    }
}

} // verus!
