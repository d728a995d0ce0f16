//! Delegation snapshots: what the remote chain reported as delegated, per
//! validator.

use vstd::prelude::*;

verus! {

/// The amount delegated to one validator.
#[derive(Clone, Debug, PartialEq, Eq)]
pub struct Delegation {
    pub validator: String,
    pub amount: u128,
}

/// Mathematical model of a [`Delegation`].
pub struct DelegationView {
    pub validator: Seq<char>,
    pub amount: u128,
}

impl View for Delegation {
    type V = DelegationView;

    open spec fn view(&self) -> DelegationView {
        DelegationView { validator: self.validator@, amount: self.amount }
    }
}

impl Delegation {
    /// A copy of this delegation.
    pub fn duplicate(&self) -> (r: Delegation)
        ensures
            r == *self,
    {
        Delegation { validator: self.validator.clone(), amount: self.amount }
    }
}

/// The models of a sequence of delegations.
pub open spec fn delegation_views(entries: Seq<Delegation>) -> Seq<DelegationView> {
    Seq::new(entries.len(), |i: int| entries[i]@)
}

/// No validator occurs twice.
pub open spec fn distinct_validators(s: Seq<DelegationView>) -> bool {
    forall|i: int, j: int|
        0 <= i < j < s.len() ==> (#[trigger] s[i]).validator != (#[trigger] s[j]).validator
}

/// Entry `i` is the one of `validator`.
pub open spec fn is_validator_at(s: Seq<DelegationView>, validator: Seq<char>, i: int) -> bool {
    0 <= i < s.len() && s[i].validator == validator
}

/// The snapshot names `validator`.
pub open spec fn has_validator(s: Seq<DelegationView>, validator: Seq<char>) -> bool {
    exists|i: int| is_validator_at(s, validator, i)
}

/// The index of the entry of `validator`, where there is one.
pub open spec fn validator_index(s: Seq<DelegationView>, validator: Seq<char>) -> int {
    choose|i: int| is_validator_at(s, validator, i)
}

/// The amount that the snapshot holds for `validator`.
pub open spec fn amount_of(s: Seq<DelegationView>, validator: Seq<char>) -> Option<u128> {
    if has_validator(s, validator) {
        Some(s[validator_index(s, validator)].amount)
    } else {
        None
    }
}

/// The snapshot with the amount of `validator` set: its entry is replaced in
/// place, or appended where the validator is new.
pub open spec fn with_amount(s: Seq<DelegationView>, validator: Seq<char>, amount: u128) -> Seq<
    DelegationView,
> {
    if has_validator(s, validator) {
        s.update(validator_index(s, validator), DelegationView { validator, amount })
    } else {
        s.push(DelegationView { validator, amount })
    }
}

/// Among distinct validators, the entry of a validator is the only one that
/// names it.
pub proof fn lemma_validator_index_unique(s: Seq<DelegationView>, validator: Seq<char>, i: int)
    requires
        distinct_validators(s),
        is_validator_at(s, validator, i),
    ensures
        has_validator(s, validator),
        validator_index(s, validator) == i,
{
    let j = validator_index(s, validator);
    assert(is_validator_at(s, validator, j));
    if i < j {
        assert(s[i].validator != s[j].validator);
    }
    if j < i {
        assert(s[j].validator != s[i].validator);
    }
}

/// A delegation snapshot: one amount per validator, in the order in which
/// the validators were first set.
#[derive(Clone, Debug, PartialEq, Eq)]
pub struct Snapshot {
    entries: Vec<Delegation>,
}

impl View for Snapshot {
    type V = Seq<DelegationView>;

    closed spec fn view(&self) -> Seq<DelegationView> {
        delegation_views(self.entries@)
    }
}

impl Snapshot {
    /// Well-formedness: no validator occurs twice.
    pub open spec fn wf(&self) -> bool {
        distinct_validators(self@)
    }

    /// The empty snapshot.
    pub fn new() -> (r: Snapshot)
        ensures
            r@ == Seq::<DelegationView>::empty(),
            r.wf(),
    {
        let r = Snapshot { entries: Vec::new() };
        assert(r@ =~= Seq::<DelegationView>::empty());
        r
    }

    /// The number of validators.
    pub fn len(&self) -> (n: usize)
        ensures
            n == self@.len(),
    {
        self.entries.len()
    }

    /// The position of the entry of `validator`.
    fn position(&self, validator: &String) -> (r: Option<usize>)
        requires
            self.wf(),
        ensures
            has_validator(self@, validator@) ==> r == Some(
                validator_index(self@, validator@) as usize,
            ),
            !has_validator(self@, validator@) ==> r is None,
            r matches Some(i) ==> is_validator_at(self@, validator@, i as int),
    {
        let mut i: usize = 0;
        while i < self.entries.len()
            invariant
                i <= self.entries.len(),
                self.wf(),
                forall|j: int| 0 <= j < i ==> !is_validator_at(self@, validator@, j),
            decreases self.entries.len() - i,
        {
            if self.entries[i].validator == *validator {
                proof {
                    lemma_validator_index_unique(self@, validator@, i as int);
                }
                return Some(i);
            }
            i += 1;
        }
        None
    }

    /// The amount held for `validator`.
    pub fn get(&self, validator: &str) -> (r: Option<u128>)
        requires
            self.wf(),
        ensures
            r == amount_of(self@, validator@),
    {
        let name: String = validator.to_owned();
        match self.position(&name) {
            Some(i) => Some(self.entries[i].amount),
            None => None,
        }
    }

    /// Sets the amount of `validator`, replacing the amount it had.
    pub fn set(&mut self, validator: &str, amount: u128)
        requires
            old(self).wf(),
        ensures
            final(self).wf(),
            final(self)@ == with_amount(old(self)@, validator@, amount),
    {
        let name: String = validator.to_owned();
        let ghost before = self@;
        let ghost entry = DelegationView { validator: validator@, amount };
        match self.position(&name) {
            Some(i) => {
                self.entries.set(i, Delegation { validator: name, amount });
                proof {
                    assert(self@ =~= before.update(i as int, entry));
                    assert forall|a: int, b: int| 0 <= a < b < self@.len() implies (
                    #[trigger] self@[a]).validator != (#[trigger] self@[b]).validator by {
                        assert(before[a].validator != before[b].validator);
                    }
                }
            },
            None => {
                self.entries.push(Delegation { validator: name, amount });
                proof {
                    assert(self@ =~= before.push(entry));
                    assert forall|a: int, b: int| 0 <= a < b < self@.len() implies (
                    #[trigger] self@[a]).validator != (#[trigger] self@[b]).validator by {
                        if b < before.len() {
                            assert(before[a].validator != before[b].validator);
                        } else {
                            assert(!is_validator_at(before, validator@, a));
                        }
                    }
                }
            },
        }
    }

    /// The delegations, in order.
    pub fn entries(&self) -> (r: Vec<Delegation>)
        ensures
            delegation_views(r@) == self@,
    {
        let mut out: Vec<Delegation> = Vec::new();
        let mut i: usize = 0;
        while i < self.entries.len()
            invariant
                i <= self.entries.len(),
                out@.len() == i,
                forall|j: int| 0 <= j < i ==> out@[j] == self.entries@[j],
            decreases self.entries.len() - i,
        {
            out.push(self.entries[i].duplicate());
            i += 1;
        }
        assert(delegation_views(out@) =~= self@);
        out
    }

    /// A copy of this snapshot.
    pub fn duplicate(&self) -> (r: Snapshot)
        ensures
            r@ == self@,
    {
        let entries = self.entries();
        Snapshot { entries }
    }
}

} // verus!
