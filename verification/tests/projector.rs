use drop_puppeteer::ledger::{
    Instruction, InstructionKind, Ledger, Resolution, TransferStatus,
};
use drop_puppeteer::projector::{project, DelegationEstimate};
use drop_puppeteer::snapshot::{Delegation, Snapshot};

fn record(l: &mut Ledger, sequence: u64, kind: InstructionKind, target: &str, amount: u128) {
    l.record(sequence, Instruction { kind, target: target.to_string(), amount }, 1, 1).unwrap();
}

fn line(validator: &str, confirmed: u128, estimated: u128) -> DelegationEstimate {
    DelegationEstimate { validator: validator.to_string(), confirmed, estimated }
}

fn snapshot(entries: &[(&str, u128)]) -> Snapshot {
    let mut s = Snapshot::new();
    for (validator, amount) in entries {
        s.set(validator, *amount);
    }
    s
}

#[test]
fn snapshot_set_replaces_in_place() {
    let mut s = Snapshot::new();
    assert_eq!(s.len(), 0);
    assert_eq!(s.get("V1"), None);
    s.set("V1", 10);
    s.set("V2", 20);
    s.set("V1", 30);
    assert_eq!(s.len(), 2);
    assert_eq!(s.get("V1"), Some(30));
    assert_eq!(s.get("V2"), Some(20));
    assert_eq!(s.get("V3"), None);
    assert_eq!(
        s.entries(),
        vec![
            Delegation { validator: "V1".to_string(), amount: 30 },
            Delegation { validator: "V2".to_string(), amount: 20 },
        ]
    );
    assert_eq!(s.duplicate(), s);
    assert_eq!(s.entries()[0].duplicate(), s.entries()[0]);
}

#[test]
fn pending_instructions_adjust_their_validator() {
    let mut l = Ledger::new();
    record(&mut l, 1, InstructionKind::Delegate, "V1", 25);
    record(&mut l, 2, InstructionKind::Undelegate, "V2", 40);
    record(&mut l, 3, InstructionKind::Delegate, "V1", 5);
    record(&mut l, 4, InstructionKind::Undelegate, "V1", 10);
    let r = project(&snapshot(&[("V1", 100), ("V2", 50), ("V3", 7)]), &l);
    assert_eq!(
        r.delegations,
        vec![line("V1", 100, 120), line("V2", 50, 10), line("V3", 7, 7)]
    );
    assert_eq!(r.pending, l.list(Some(TransferStatus::Pending)));
    assert_eq!(r.pending.len(), 4);
}

#[test]
fn resolved_entries_adjust_nothing() {
    let mut l = Ledger::new();
    record(&mut l, 1, InstructionKind::Delegate, "V1", 25);
    record(&mut l, 2, InstructionKind::Undelegate, "V1", 40);
    record(&mut l, 3, InstructionKind::Delegate, "V1", 1);
    l.resolve(1, Resolution::Acknowledged).unwrap();
    l.resolve(2, Resolution::TimedOut).unwrap();
    let r = project(&snapshot(&[("V1", 100)]), &l);
    assert_eq!(r.delegations, vec![line("V1", 100, 101)]);
    assert_eq!(r.pending.len(), 1);
    assert_eq!(r.pending[0].sequence, 3);
}

#[test]
fn redeem_and_transfer_adjust_nothing() {
    let mut l = Ledger::new();
    record(&mut l, 1, InstructionKind::Redeem, "V1", 25);
    record(&mut l, 2, InstructionKind::Transfer, "V1", 40);
    record(&mut l, 3, InstructionKind::Transfer, "cosmos1recipient", 40);
    let r = project(&snapshot(&[("V1", 100)]), &l);
    assert_eq!(r.delegations, vec![line("V1", 100, 100)]);
    // They are still listed as pending.
    assert_eq!(r.pending.len(), 3);
}

#[test]
fn validators_named_only_by_pending_instructions_follow() {
    let mut l = Ledger::new();
    record(&mut l, 1, InstructionKind::Delegate, "V9", 25);
    record(&mut l, 2, InstructionKind::Undelegate, "V8", 40);
    record(&mut l, 3, InstructionKind::Delegate, "V9", 5);
    record(&mut l, 4, InstructionKind::Delegate, "V1", 1);
    let r = project(&snapshot(&[("V1", 100)]), &l);
    assert_eq!(
        r.delegations,
        vec![line("V1", 100, 101), line("V9", 0, 30), line("V8", 0, 0)]
    );
}

#[test]
fn estimate_stays_within_the_range_of_an_amount() {
    let mut l = Ledger::new();
    record(&mut l, 1, InstructionKind::Undelegate, "V1", 101);
    record(&mut l, 2, InstructionKind::Delegate, "V2", u128::MAX);
    record(&mut l, 3, InstructionKind::Delegate, "V2", 1);
    let r = project(&snapshot(&[("V1", 100), ("V2", 5)]), &l);
    assert_eq!(r.delegations, vec![line("V1", 100, 0), line("V2", 5, u128::MAX)]);
}

#[test]
fn large_adjustments_cancel_exactly() {
    let mut l = Ledger::new();
    record(&mut l, 1, InstructionKind::Delegate, "V1", u128::MAX);
    record(&mut l, 2, InstructionKind::Delegate, "V1", u128::MAX);
    record(&mut l, 3, InstructionKind::Undelegate, "V1", u128::MAX);
    record(&mut l, 4, InstructionKind::Undelegate, "V1", u128::MAX);
    record(&mut l, 5, InstructionKind::Undelegate, "V1", 2);
    let r = project(&snapshot(&[("V1", 5)]), &l);
    assert_eq!(r.delegations, vec![line("V1", 5, 3)]);

    let mut l = Ledger::new();
    record(&mut l, 1, InstructionKind::Delegate, "V1", u128::MAX);
    record(&mut l, 2, InstructionKind::Delegate, "V1", 10);
    record(&mut l, 3, InstructionKind::Undelegate, "V1", 11);
    let r = project(&snapshot(&[("V1", 0)]), &l);
    assert_eq!(r.delegations, vec![line("V1", 0, u128::MAX - 1)]);

    let mut l = Ledger::new();
    record(&mut l, 1, InstructionKind::Delegate, "V1", u128::MAX);
    record(&mut l, 2, InstructionKind::Delegate, "V1", u128::MAX);
    record(&mut l, 3, InstructionKind::Delegate, "V1", u128::MAX);
    record(&mut l, 4, InstructionKind::Undelegate, "V1", u128::MAX);
    let r = project(&snapshot(&[("V1", 0)]), &l);
    assert_eq!(r.delegations, vec![line("V1", 0, u128::MAX)]);
}

#[test]
fn projection_is_deterministic_and_changes_nothing() {
    let mut l = Ledger::new();
    record(&mut l, 1, InstructionKind::Delegate, "V1", 25);
    record(&mut l, 2, InstructionKind::Undelegate, "V2", 40);
    let s = snapshot(&[("V1", 100), ("V2", 50)]);
    let ledger_before = l.clone();
    let snapshot_before = s.clone();
    let first = project(&s, &l);
    let second = project(&s, &l);
    assert_eq!(first, second);
    assert_eq!(l, ledger_before);
    assert_eq!(s, snapshot_before);
}

#[test]
fn empty_ledger_projects_the_snapshot() {
    let r = project(&snapshot(&[("V2", 50), ("V1", 100)]), &Ledger::new());
    assert_eq!(r.delegations, vec![line("V2", 50, 50), line("V1", 100, 100)]);
    assert!(r.pending.is_empty());
    let r = project(&Snapshot::new(), &Ledger::new());
    assert!(r.delegations.is_empty());
}
