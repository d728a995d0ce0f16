//! The delegation projector: the best current estimate of delegated
//! balances, from the confirmed snapshot and the pending instructions.

use vstd::prelude::*;
use crate::ledger::{
    count_pending, select, views, InstructionKind, Ledger, Transfer, TransferStatus, TransferView,
};
use crate::snapshot::{
    delegation_views, has_validator, is_validator_at, Delegation, DelegationView, Snapshot,
};

verus! {

/// The estimate for one validator: the confirmed amount and the amount
/// expected once every pending instruction has taken effect.
#[derive(Clone, Debug, PartialEq, Eq)]
pub struct DelegationEstimate {
    pub validator: String,
    /// What the remote chain last confirmed.
    pub confirmed: u128,
    /// The confirmed amount adjusted by the pending instructions.
    pub estimated: u128,
}

/// Mathematical model of a [`DelegationEstimate`].
pub struct DelegationEstimateView {
    pub validator: Seq<char>,
    pub confirmed: u128,
    pub estimated: u128,
}

impl View for DelegationEstimate {
    type V = DelegationEstimateView;

    open spec fn view(&self) -> DelegationEstimateView {
        DelegationEstimateView {
            validator: self.validator@,
            confirmed: self.confirmed,
            estimated: self.estimated,
        }
    }
}

/// The answer to a delegations query.
#[derive(Clone, Debug, PartialEq, Eq)]
pub struct DelegationsResponse {
    /// One line per validator: those of the snapshot in its order, then
    /// those that only pending instructions name, in submission order.
    pub delegations: Vec<DelegationEstimate>,
    /// The pending ledger entries, in submission order: what the estimated
    /// figures rest on beyond the confirmed ones.
    pub pending: Vec<Transfer>,
}

/// Mathematical model of a [`DelegationsResponse`].
pub struct DelegationsResponseView {
    pub delegations: Seq<DelegationEstimateView>,
    pub pending: Seq<TransferView>,
}

/// The models of a sequence of estimates.
pub open spec fn estimate_views(entries: Seq<DelegationEstimate>) -> Seq<DelegationEstimateView> {
    Seq::new(entries.len(), |i: int| entries[i]@)
}

impl View for DelegationsResponse {
    type V = DelegationsResponseView;

    open spec fn view(&self) -> DelegationsResponseView {
        DelegationsResponseView {
            delegations: estimate_views(self.delegations@),
            pending: views(self.pending@),
        }
    }
}

impl DelegationsResponseView {
    /// The estimated figures as a snapshot.
    pub open spec fn estimated_snapshot(self) -> Seq<DelegationView> {
        Seq::new(
            self.delegations.len(),
            |i: int|
                DelegationView {
                    validator: self.delegations[i].validator,
                    amount: self.delegations[i].estimated,
                },
        )
    }

    /// The confirmed figures as a snapshot.
    pub open spec fn confirmed_snapshot(self) -> Seq<DelegationView> {
        Seq::new(
            self.delegations.len(),
            |i: int|
                DelegationView {
                    validator: self.delegations[i].validator,
                    amount: self.delegations[i].confirmed,
                },
        )
    }
}

/// What entry `t` adds to the amount delegated to `validator`: its amount
/// where it is a pending delegation to that validator.
pub open spec fn delegated_by(t: TransferView, validator: Seq<char>) -> nat {
    if t.status is Pending && t.kind is Delegate && t.target == validator {
        t.amount as nat
    } else {
        0
    }
}

/// What entry `t` takes from the amount delegated to `validator`: its amount
/// where it is a pending undelegation from that validator.
pub open spec fn undelegated_by(t: TransferView, validator: Seq<char>) -> nat {
    if t.status is Pending && t.kind is Undelegate && t.target == validator {
        t.amount as nat
    } else {
        0
    }
}

/// The total of the pending delegations to `validator`.
pub open spec fn pending_delegated(l: Seq<TransferView>, validator: Seq<char>) -> nat
    decreases l.len(),
{
    if l.len() == 0 {
        0
    } else {
        pending_delegated(l.drop_last(), validator) + delegated_by(l.last(), validator)
    }
}

/// The total of the pending undelegations from `validator`.
pub open spec fn pending_undelegated(l: Seq<TransferView>, validator: Seq<char>) -> nat
    decreases l.len(),
{
    if l.len() == 0 {
        0
    } else {
        pending_undelegated(l.drop_last(), validator) + undelegated_by(l.last(), validator)
    }
}

/// `x` brought into the range of an amount.
pub open spec fn clamp(x: int) -> u128 {
    if x < 0 {
        0
    } else if x > u128::MAX {
        u128::MAX
    } else {
        x as u128
    }
}

/// The estimate for `validator`: the confirmed amount, plus the pending
/// delegations, minus the pending undelegations, kept within the range of
/// an amount.
pub open spec fn estimate_of(confirmed: u128, l: Seq<TransferView>, validator: Seq<char>) -> u128 {
    clamp(confirmed + pending_delegated(l, validator) - pending_undelegated(l, validator))
}

/// Whether entry `t` adjusts an estimate: it is a pending delegation or
/// undelegation.
pub open spec fn adjusts(t: TransferView) -> bool {
    t.status is Pending && (t.kind is Delegate || t.kind is Undelegate)
}

/// The validators that only pending instructions name: the targets of the
/// adjusting entries that the snapshot does not hold, each once, in the
/// order in which they first occur.
pub open spec fn new_validators(snapshot: Seq<DelegationView>, l: Seq<TransferView>) -> Seq<
    Seq<char>,
>
    decreases l.len(),
{
    if l.len() == 0 {
        Seq::empty()
    } else {
        let before = new_validators(snapshot, l.drop_last());
        let t = l.last();
        if adjusts(t) && !has_validator(snapshot, t.target) && !before.contains(t.target) {
            before.push(t.target)
        } else {
            before
        }
    }
}

/// The line of the response for one validator.
pub open spec fn estimate_entry(validator: Seq<char>, confirmed: u128, l: Seq<TransferView>) -> DelegationEstimateView {
    DelegationEstimateView { validator, confirmed, estimated: estimate_of(confirmed, l, validator) }
}

/// The lines of the response: first the validators of the snapshot, then
/// the new ones with nothing confirmed.
pub open spec fn estimates(snapshot: Seq<DelegationView>, l: Seq<TransferView>) -> Seq<
    DelegationEstimateView,
> {
    let fresh = new_validators(snapshot, l);
    Seq::new(
        snapshot.len() + fresh.len(),
        |i: int|
            if i < snapshot.len() {
                estimate_entry(snapshot[i].validator, snapshot[i].amount, l)
            } else {
                estimate_entry(fresh[i - snapshot.len()], 0, l)
            },
    )
}

/// The whole response for a snapshot and a ledger.
pub open spec fn projection(snapshot: Seq<DelegationView>, l: Seq<TransferView>) -> DelegationsResponseView {
    DelegationsResponseView {
        delegations: estimates(snapshot, l),
        pending: select(l, Some(TransferStatus::Pending)),
    }
}

/// Appending an entry adds its contribution to both totals.
pub proof fn lemma_totals_push(l: Seq<TransferView>, t: TransferView, validator: Seq<char>)
    ensures
        pending_delegated(l.push(t), validator) == pending_delegated(l, validator) + delegated_by(
            t,
            validator,
        ),
        pending_undelegated(l.push(t), validator) == pending_undelegated(l, validator)
            + undelegated_by(t, validator),
{
    assert(l.push(t).drop_last() =~= l);
}

/// Appending an entry adds its target to the new validators where it
/// adjusts and the target was not known.
pub proof fn lemma_new_validators_push(snapshot: Seq<DelegationView>, l: Seq<TransferView>, t: TransferView)
    ensures
        new_validators(snapshot, l.push(t)) == if adjusts(t) && !has_validator(snapshot, t.target)
            && !new_validators(snapshot, l).contains(t.target) {
            new_validators(snapshot, l).push(t.target)
        } else {
            new_validators(snapshot, l)
        },
{
    assert(l.push(t).drop_last() =~= l);
}

/// A ledger without pending entries adjusts nothing.
pub proof fn lemma_settled_ledger(snapshot: Seq<DelegationView>, l: Seq<TransferView>, validator: Seq<char>)
    requires
        count_pending(l) == 0,
    ensures
        pending_delegated(l, validator) == 0,
        pending_undelegated(l, validator) == 0,
        new_validators(snapshot, l) == Seq::<Seq<char>>::empty(),
        select(l, Some(TransferStatus::Pending)) == Seq::<TransferView>::empty(),
    decreases l.len(),
{
    if l.len() > 0 {
        lemma_settled_ledger(snapshot, l.drop_last(), validator);
    }
}

/// A natural number held in two limbs of 128 bits.
struct Wide {
    high: u128,
    low: u128,
}

impl Wide {
    spec fn value(self) -> nat {
        (self.high * 0x1_0000_0000_0000_0000_0000_0000_0000_0000 + self.low) as nat
    }

    fn zero() -> (r: Wide)
        ensures
            r.value() == 0,
            r.high == 0,
    {
        Wide { high: 0, low: 0 }
    }

    fn plus(self, amount: u128) -> (r: Wide)
        requires
            self.high < u128::MAX,
        ensures
            r.value() == self.value() + amount,
            r.high <= self.high + 1,
    {
        if amount <= u128::MAX - self.low {
            Wide { high: self.high, low: self.low + amount }
        } else {
            Wide { high: self.high + 1, low: amount - (u128::MAX - self.low) - 1 }
        }
    }

    /// `self - other`, kept within the range of an amount.
    fn minus_clamped(self, other: Wide) -> (r: u128)
        ensures
            r == clamp(self.value() - other.value()),
    {
        if self.high < other.high {
            0
        } else if self.high == other.high {
            if self.low < other.low {
                0
            } else {
                self.low - other.low
            }
        } else if self.high - other.high >= 2 {
            u128::MAX
        } else if self.low >= other.low {
            u128::MAX
        } else {
            u128::MAX - (other.low - self.low) + 1
        }
    }
}

/// The models of a sequence of names.
spec fn name_views(names: Seq<String>) -> Seq<Seq<char>> {
    Seq::new(names.len(), |i: int| names[i]@)
}

/// Whether `names` holds `name`.
fn contains_name(names: &Vec<String>, name: &String) -> (r: bool)
    ensures
        r == name_views(names@).contains(name@),
{
    let mut i: usize = 0;
    while i < names.len()
        invariant
            i <= names.len(),
            forall|j: int| 0 <= j < i ==> name_views(names@)[j] != name@,
        decreases names.len() - i,
    {
        if names[i] == *name {
            assert(name_views(names@)[i as int] == name@);
            return true;
        }
        i += 1;
    }
    false
}

/// The estimate for one validator.
fn estimate_for(ledger: &Ledger, validator: &String, confirmed: u128) -> (r: u128)
    ensures
        r == estimate_of(confirmed, ledger@, validator@),
{
    let mut up = Wide::zero();
    let mut down = Wide::zero();
    let mut i: usize = 0;
    let n = ledger.len();
    assert(ledger@.take(0) =~= Seq::<TransferView>::empty());
    while i < n
        invariant
            i <= n,
            n == ledger@.len(),
            up.high <= i,
            down.high <= i,
            up.value() == pending_delegated(ledger@.take(i as int), validator@),
            down.value() == pending_undelegated(ledger@.take(i as int), validator@),
        decreases n - i,
    {
        let t = ledger.entry_ref(i);
        proof {
            lemma_totals_push(ledger@.take(i as int), ledger@[i as int], validator@);
            assert(ledger@.take(i as int).push(ledger@[i as int]) =~= ledger@.take(i + 1));
        }
        if t.status == TransferStatus::Pending && t.target == *validator {
            if t.kind == InstructionKind::Delegate {
                up = up.plus(t.amount);
            } else if t.kind == InstructionKind::Undelegate {
                down = down.plus(t.amount);
            }
        }
        i += 1;
    }
    assert(ledger@.take(i as int) =~= ledger@);
    let total = up.plus(confirmed);
    total.minus_clamped(down)
}

/// The estimate of delegated balances for a confirmed snapshot and a
/// ledger. Each pending delegation counts as a positive adjustment and each
/// pending undelegation as a negative one, for the validator it names;
/// nothing is changed.
pub fn project(snapshot: &Snapshot, ledger: &Ledger) -> (r: DelegationsResponse)
    ensures
        r@ == projection(snapshot@, ledger@),
        count_pending(ledger@) == 0 ==> r@.estimated_snapshot() == snapshot@
            && r@.confirmed_snapshot() == snapshot@ && r@.pending.len() == 0,
{
    let confirmed = snapshot.entries();
    let n = ledger.len();
    // The validators that only pending instructions name.
    let mut fresh: Vec<String> = Vec::new();
    let mut i: usize = 0;
    assert(ledger@.take(0) =~= Seq::<TransferView>::empty());
    assert(name_views(fresh@) =~= Seq::<Seq<char>>::empty());
    while i < n
        invariant
            i <= n,
            n == ledger@.len(),
            delegation_views(confirmed@) == snapshot@,
            name_views(fresh@) == new_validators(snapshot@, ledger@.take(i as int)),
        decreases n - i,
    {
        let t = ledger.entry_ref(i);
        proof {
            lemma_new_validators_push(snapshot@, ledger@.take(i as int), ledger@[i as int]);
            assert(ledger@.take(i as int).push(ledger@[i as int]) =~= ledger@.take(i + 1));
        }
        if t.status == TransferStatus::Pending && (t.kind == InstructionKind::Delegate || t.kind
            == InstructionKind::Undelegate) {
            let known = holds(&confirmed, &t.target);
            if !known && !contains_name(&fresh, &t.target) {
                let ghost before = fresh@;
                fresh.push(t.target.clone());
                assert(name_views(fresh@) =~= name_views(before).push(t.target@));
            }
        }
        i += 1;
    }
    assert(ledger@.take(i as int) =~= ledger@);
    // One line per validator.
    let mut delegations: Vec<DelegationEstimate> = Vec::new();
    let mut j: usize = 0;
    while j < confirmed.len()
        invariant
            j <= confirmed.len(),
            delegation_views(confirmed@) == snapshot@,
            delegations@.len() == j,
            forall|k: int|
                0 <= k < j ==> (#[trigger] delegations@[k])@ == estimate_entry(
                    snapshot@[k].validator,
                    snapshot@[k].amount,
                    ledger@,
                ),
        decreases confirmed.len() - j,
    {
        let d = &confirmed[j];
        assert(d@ == delegation_views(confirmed@)[j as int]);
        let estimated = estimate_for(ledger, &d.validator, d.amount);
        delegations.push(
            DelegationEstimate { validator: d.validator.clone(), confirmed: d.amount, estimated },
        );
        j += 1;
    }
    let mut k: usize = 0;
    while k < fresh.len()
        invariant
            k <= fresh.len(),
            delegations@.len() == snapshot@.len() + k,
            name_views(fresh@) == new_validators(snapshot@, ledger@),
            forall|m: int|
                0 <= m < snapshot@.len() ==> (#[trigger] delegations@[m])@ == estimate_entry(
                    snapshot@[m].validator,
                    snapshot@[m].amount,
                    ledger@,
                ),
            forall|m: int|
                snapshot@.len() <= m < snapshot@.len() + k ==> (#[trigger] delegations@[m])@
                    == estimate_entry(name_views(fresh@)[m - snapshot@.len()], 0, ledger@),
        decreases fresh.len() - k,
    {
        let name = &fresh[k];
        assert(name@ == name_views(fresh@)[k as int]);
        let estimated = estimate_for(ledger, name, 0);
        delegations.push(DelegationEstimate { validator: name.clone(), confirmed: 0, estimated });
        k += 1;
    }
    let pending = ledger.list(Some(TransferStatus::Pending));
    let r = DelegationsResponse { delegations, pending };
    proof {
        assert(name_views(fresh@).len() == fresh@.len());
        assert(r@.delegations =~= estimates(snapshot@, ledger@));
        if count_pending(ledger@) == 0 {
            lemma_projection_of_settled(snapshot@, ledger@);
        }
    }
    r
}

/// Whether the delegations name `validator`.
fn holds(delegations: &Vec<Delegation>, validator: &String) -> (r: bool)
    ensures
        r == has_validator(delegation_views(delegations@), validator@),
{
    let mut i: usize = 0;
    while i < delegations.len()
        invariant
            i <= delegations.len(),
            forall|j: int|
                0 <= j < i ==> !is_validator_at(delegation_views(delegations@), validator@, j),
        decreases delegations.len() - i,
    {
        if delegations[i].validator == *validator {
            assert(is_validator_at(delegation_views(delegations@), validator@, i as int));
            return true;
        }
        i += 1;
    }
    false
}

/// With no pending entry, the response repeats the snapshot: every
/// estimated figure is the confirmed one, in the snapshot's order, and no
/// validator is added.
pub proof fn lemma_projection_of_settled(snapshot: Seq<DelegationView>, l: Seq<TransferView>)
    requires
        count_pending(l) == 0,
    ensures
        projection(snapshot, l).estimated_snapshot() == snapshot,
        projection(snapshot, l).confirmed_snapshot() == snapshot,
        projection(snapshot, l).pending == Seq::<TransferView>::empty(),
{
    let p = projection(snapshot, l);
    lemma_settled_ledger(snapshot, l, Seq::<char>::empty());
    assert(p.delegations.len() == snapshot.len());
    assert forall|i: int| 0 <= i < snapshot.len() implies p.estimated_snapshot()[i]
        == snapshot[i] && p.confirmed_snapshot()[i] == snapshot[i] by {
        lemma_settled_ledger(snapshot, l, snapshot[i].validator);
    }
    assert(p.estimated_snapshot() =~= snapshot);
    assert(p.confirmed_snapshot() =~= snapshot);
}

} // verus!
