use drop_puppeteer::config::Config;
use drop_puppeteer::engine::{AckDisposition, AckOutcome, Puppeteer};
use drop_puppeteer::error::ContractError;
use drop_puppeteer::ledger::{Instruction, InstructionKind, Transfer, TransferStatus};
use drop_puppeteer::projector::DelegationEstimate;
use drop_puppeteer::query::{QueryMsg, QueryResponse};
use drop_puppeteer::snapshot::Snapshot;
use drop_puppeteer::state::{State, Status};

const OWNER: &str = "neutron1owner";

fn config() -> Config {
    Config {
        connection_id: "connection-0".to_string(),
        port_id: "icacontroller-1".to_string(),
        update_period: 100,
        remote_denom: "uatom".to_string(),
        owner: OWNER.to_string(),
    }
}

fn engine() -> Puppeteer {
    Puppeteer::instantiate(config())
}

fn delegate(validator: &str, amount: u128) -> Instruction {
    Instruction { kind: InstructionKind::Delegate, target: validator.to_string(), amount }
}

fn undelegate(validator: &str, amount: u128) -> Instruction {
    Instruction { kind: InstructionKind::Undelegate, target: validator.to_string(), amount }
}

fn snapshot(entries: &[(&str, u128)]) -> Snapshot {
    let mut s = Snapshot::new();
    for (validator, amount) in entries {
        s.set(validator, *amount);
    }
    s
}

fn pending_count(p: &Puppeteer) -> usize {
    p.ledger().list(Some(TransferStatus::Pending)).len()
}

#[test]
fn fresh_instance_is_idle_and_empty() {
    let p = engine();
    assert_eq!(p.state().status, Status::Idle);
    assert_eq!(p.state().pending, Vec::<u64>::new());
    assert_eq!(p.state().confirmed_snapshot, Snapshot::new());
    assert_eq!(p.ledger().len(), 0);
    assert_eq!(p.config(), Some(config()));
}

#[test]
fn delegations_acknowledged_out_of_order() {
    let mut p = engine();
    assert_eq!(p.submit(OWNER, 1, delegate("V1", 100), 10, 1000), Ok(1));
    assert_eq!(p.state().status, Status::AwaitingAck);
    assert_eq!(p.state().pending, vec![1]);

    assert_eq!(p.submit(OWNER, 2, delegate("V2", 50), 11, 1001), Ok(2));
    assert_eq!(p.state().pending, vec![1, 2]);

    let first = snapshot(&[("V1", 0), ("V2", 50)]);
    assert_eq!(p.on_ack(2, AckOutcome::Success, Some(first.clone())), AckDisposition::Applied);
    assert_eq!(p.state().confirmed_snapshot, first);
    assert_eq!(p.state().pending, vec![1]);
    assert_eq!(p.state().status, Status::AwaitingAck);

    let second = snapshot(&[("V1", 100), ("V2", 50)]);
    assert_eq!(p.on_ack(1, AckOutcome::Success, Some(second.clone())), AckDisposition::Applied);
    assert_eq!(p.state().confirmed_snapshot, second);
    assert_eq!(p.state().pending, Vec::<u64>::new());
    assert_eq!(p.state().status, Status::Idle);

    let estimate = p.current_estimate();
    assert_eq!(
        estimate.delegations,
        vec![
            DelegationEstimate { validator: "V1".to_string(), confirmed: 100, estimated: 100 },
            DelegationEstimate { validator: "V2".to_string(), confirmed: 50, estimated: 50 },
        ]
    );
    assert_eq!(estimate.pending, Vec::<Transfer>::new());
}

#[test]
fn rejection_requires_resync() {
    let mut p = engine();
    p.submit(OWNER, 1, delegate("V1", 100), 10, 1000).unwrap();
    p.submit(OWNER, 2, delegate("V2", 50), 11, 1001).unwrap();
    p.on_ack(2, AckOutcome::Success, Some(snapshot(&[("V1", 0), ("V2", 50)])));
    p.on_ack(1, AckOutcome::Success, Some(snapshot(&[("V1", 100), ("V2", 50)])));

    assert_eq!(p.submit(OWNER, 3, undelegate("V1", 40), 12, 1002), Ok(3));
    assert_eq!(p.state().pending, vec![3]);

    assert_eq!(p.on_ack(3, AckOutcome::Rejected, None), AckDisposition::Applied);
    assert_eq!(p.state().pending, Vec::<u64>::new());
    assert_eq!(p.state().status, Status::NeedsResync);

    let before = p.clone();
    assert_eq!(p.submit(OWNER, 4, delegate("V1", 1), 13, 1003), Err(ContractError::NeedsResync));
    assert_eq!(p, before);

    let imposed = snapshot(&[("V1", 100), ("V2", 50)]);
    assert_eq!(p.resync(OWNER, imposed.clone()), Ok(()));
    assert_eq!(p.state().status, Status::Idle);
    assert_eq!(p.state().confirmed_snapshot, imposed);
    assert_eq!(p.submit(OWNER, 4, delegate("V1", 1), 13, 1003), Ok(4));
}

#[test]
fn submit_appends_pending_entry_under_new_sequence() {
    let mut p = engine();
    for (i, sequence) in [7u64, 3, 9, 4].iter().enumerate() {
        assert!(!p.ledger().contains(*sequence));
        assert_eq!(p.submit(OWNER, *sequence, delegate("V1", 5), 20, 2000), Ok(*sequence));
        assert_eq!(p.ledger().len(), i + 1);
        let entry = p.ledger().get(i).unwrap();
        assert_eq!(
            entry,
            Transfer {
                sequence: *sequence,
                kind: InstructionKind::Delegate,
                target: "V1".to_string(),
                amount: 5,
                height: 20,
                time: 2000,
                status: TransferStatus::Pending,
            }
        );
        assert_eq!(p.state().pending.len(), pending_count(&p));
        assert_eq!(p.state().status, Status::AwaitingAck);
    }
    assert_eq!(p.state().pending, vec![7, 3, 9, 4]);
}

#[test]
fn pending_set_matches_pending_entries_at_every_point() {
    let mut p = engine();
    p.submit(OWNER, 1, delegate("V1", 5), 1, 1).unwrap();
    assert_eq!(p.state().pending.len(), pending_count(&p));
    p.submit(OWNER, 2, undelegate("V1", 2), 1, 1).unwrap();
    assert_eq!(p.state().pending.len(), pending_count(&p));
    p.on_ack(1, AckOutcome::Timeout, None);
    assert_eq!(p.state().pending.len(), pending_count(&p));
    assert_eq!(p.state().pending, vec![2]);
    p.on_ack(5, AckOutcome::Success, None);
    assert_eq!(p.state().pending.len(), pending_count(&p));
    p.submit(OWNER, 3, delegate("V2", 1), 1, 1).unwrap();
    assert_eq!(p.state().pending, vec![2, 3]);
    assert_eq!(p.state().pending.len(), pending_count(&p));
    p.on_ack(2, AckOutcome::Success, None);
    p.on_ack(3, AckOutcome::Success, None);
    assert_eq!(p.state().pending.len(), 0);
    assert_eq!(pending_count(&p), 0);
}

#[test]
fn duplicate_sequence_is_rejected_and_changes_nothing() {
    let mut p = engine();
    p.submit(OWNER, 1, delegate("V1", 5), 1, 1).unwrap();
    let before = p.clone();
    assert_eq!(
        p.submit(OWNER, 1, delegate("V2", 9), 2, 2),
        Err(ContractError::DuplicateSequence)
    );
    assert_eq!(p, before);
    p.on_ack(1, AckOutcome::Success, None);
    let before = p.clone();
    assert_eq!(
        p.submit(OWNER, 1, delegate("V2", 9), 2, 2),
        Err(ContractError::DuplicateSequence)
    );
    assert_eq!(p, before);
}

#[test]
fn stranger_is_unauthorized_and_changes_nothing() {
    let mut p = engine();
    let before = p.clone();
    assert_eq!(
        p.submit("neutron1stranger", 1, delegate("V1", 5), 1, 1),
        Err(ContractError::Unauthorized)
    );
    assert_eq!(p.resync("neutron1stranger", snapshot(&[("V1", 1)])), Err(ContractError::Unauthorized));
    let mut other = config();
    other.owner = "neutron1stranger".to_string();
    assert_eq!(p.update_config("neutron1stranger", other), Err(ContractError::Unauthorized));
    assert_eq!(p, before);
}

#[test]
fn stranger_is_unauthorized_even_when_resync_is_due() {
    let mut p = engine();
    p.submit(OWNER, 1, delegate("V1", 5), 1, 1).unwrap();
    p.on_ack(1, AckOutcome::Rejected, None);
    assert_eq!(
        p.submit("neutron1stranger", 2, delegate("V1", 5), 1, 1),
        Err(ContractError::Unauthorized)
    );
}

#[test]
fn uninitialised_instance_is_not_found() {
    let mut p = Puppeteer::new();
    assert_eq!(p.config(), None);
    assert_eq!(p.submit(OWNER, 1, delegate("V1", 5), 1, 1), Err(ContractError::NotFound));
    assert_eq!(p.resync(OWNER, Snapshot::new()), Err(ContractError::NotFound));
    assert_eq!(p.update_config(OWNER, config()), Err(ContractError::NotFound));
    assert_eq!(p.on_ack(1, AckOutcome::Success, None), AckDisposition::Ignored);
    assert_eq!(p.query(QueryMsg::Config {}), Err(ContractError::NotFound));
    assert_eq!(p.query(QueryMsg::State {}), Err(ContractError::NotFound));
    assert_eq!(p.query(QueryMsg::InterchainTransactions {}), Err(ContractError::NotFound));
    assert_eq!(p.query(QueryMsg::Delegations {}), Err(ContractError::NotFound));
    assert_eq!(p, Puppeteer::new());
}

#[test]
fn repeated_ack_is_ignored() {
    let mut p = engine();
    p.submit(OWNER, 1, delegate("V1", 100), 1, 1).unwrap();
    p.submit(OWNER, 2, delegate("V2", 50), 1, 1).unwrap();
    let payload = snapshot(&[("V1", 100)]);
    assert_eq!(p.on_ack(1, AckOutcome::Success, Some(payload.clone())), AckDisposition::Applied);
    let after_first = p.clone();
    assert_eq!(p.on_ack(1, AckOutcome::Success, Some(payload)), AckDisposition::Ignored);
    assert_eq!(p, after_first);
    // A retransmission with another snapshot is ignored as well.
    assert_eq!(
        p.on_ack(1, AckOutcome::Success, Some(snapshot(&[("V1", 7)]))),
        AckDisposition::Ignored
    );
    assert_eq!(p, after_first);
}

#[test]
fn unknown_sequence_is_ignored() {
    let mut p = engine();
    p.submit(OWNER, 1, delegate("V1", 100), 1, 1).unwrap();
    let before = p.clone();
    assert_eq!(p.on_ack(2, AckOutcome::Success, Some(snapshot(&[("V1", 1)]))), AckDisposition::Ignored);
    assert_eq!(p.on_ack(2, AckOutcome::Rejected, None), AckDisposition::Ignored);
    assert_eq!(p, before);
}

#[test]
fn ack_order_does_not_matter() {
    let mut start = engine();
    start.submit(OWNER, 1, delegate("V1", 100), 1, 1).unwrap();
    start.submit(OWNER, 2, delegate("V2", 50), 2, 2).unwrap();
    start.submit(OWNER, 3, delegate("V3", 10), 3, 3).unwrap();
    let payload = snapshot(&[("V1", 100), ("V2", 50)]);

    let mut a_first = start.clone();
    a_first.on_ack(1, AckOutcome::Success, Some(payload.clone()));
    a_first.on_ack(2, AckOutcome::Success, None);

    let mut b_first = start.clone();
    b_first.on_ack(2, AckOutcome::Success, None);
    b_first.on_ack(1, AckOutcome::Success, Some(payload.clone()));

    assert_eq!(a_first, b_first);
    assert_eq!(a_first.state().confirmed_snapshot, payload);
    assert_eq!(a_first.state().pending, vec![3]);
    assert_eq!(a_first.state().status, Status::AwaitingAck);
}

#[test]
fn estimate_without_pending_is_the_snapshot() {
    let mut p = engine();
    p.submit(OWNER, 1, delegate("V1", 100), 1, 1).unwrap();
    let confirmed = snapshot(&[("V2", 7), ("V1", 100), ("V3", 0)]);
    p.on_ack(1, AckOutcome::Success, Some(confirmed.clone()));
    assert_eq!(p.state().pending.len(), 0);
    let estimate = p.current_estimate();
    let estimated: Vec<(String, u128)> =
        estimate.delegations.iter().map(|d| (d.validator.clone(), d.estimated)).collect();
    let expected: Vec<(String, u128)> =
        confirmed.entries().iter().map(|d| (d.validator.clone(), d.amount)).collect();
    assert_eq!(estimated, expected);
    assert!(estimate.delegations.iter().all(|d| d.confirmed == d.estimated));
    assert!(estimate.pending.is_empty());
}

#[test]
fn resync_due_blocks_submit_until_resync() {
    let mut p = engine();
    p.submit(OWNER, 1, delegate("V1", 100), 1, 1).unwrap();
    p.submit(OWNER, 2, delegate("V2", 100), 1, 1).unwrap();
    p.on_ack(1, AckOutcome::Rejected, None);
    assert_eq!(p.state().status, Status::NeedsResync);
    assert_eq!(p.submit(OWNER, 3, delegate("V1", 1), 1, 1), Err(ContractError::NeedsResync));
    // Pending instructions still resolve, and the condition stays.
    assert_eq!(p.on_ack(2, AckOutcome::Success, None), AckDisposition::Applied);
    assert_eq!(p.state().status, Status::NeedsResync);
    assert_eq!(p.state().pending.len(), 0);
    assert_eq!(p.submit(OWNER, 3, delegate("V1", 1), 1, 1), Err(ContractError::NeedsResync));
    assert_eq!(p.update_config(OWNER, config()), Ok(()));
    assert_eq!(p.submit(OWNER, 4, delegate("V1", 1), 1, 1), Err(ContractError::NeedsResync));
    assert_eq!(p.resync(OWNER, Snapshot::new()), Ok(()));
    assert_eq!(p.state().status, Status::Idle);
    assert_eq!(p.submit(OWNER, 3, delegate("V1", 1), 1, 1), Ok(3));
}

#[test]
fn timeout_is_retriable() {
    let mut p = engine();
    p.submit(OWNER, 1, delegate("V1", 100), 1, 1).unwrap();
    p.submit(OWNER, 2, delegate("V2", 100), 1, 1).unwrap();
    let payload = snapshot(&[("V9", 9)]);
    assert_eq!(p.on_ack(1, AckOutcome::Timeout, Some(payload)), AckDisposition::Applied);
    assert_eq!(p.state().status, Status::AwaitingAck);
    // A failure never replaces the snapshot.
    assert_eq!(p.state().confirmed_snapshot, Snapshot::new());
    assert_eq!(p.ledger().get(0).unwrap().status, TransferStatus::TimedOut);
    assert_eq!(p.on_ack(2, AckOutcome::Timeout, None), AckDisposition::Applied);
    assert_eq!(p.state().status, Status::Idle);
    assert_eq!(p.submit(OWNER, 3, delegate("V1", 100), 2, 2), Ok(3));
    assert_eq!(p.state().status, Status::AwaitingAck);
}

#[test]
fn success_without_payload_keeps_snapshot() {
    let mut p = engine();
    p.submit(OWNER, 1, delegate("V1", 100), 1, 1).unwrap();
    p.on_ack(1, AckOutcome::Success, Some(snapshot(&[("V1", 100)])));
    p.submit(OWNER, 2, delegate("V1", 1), 1, 1).unwrap();
    assert_eq!(p.on_ack(2, AckOutcome::Success, None), AckDisposition::Applied);
    assert_eq!(p.state().confirmed_snapshot, snapshot(&[("V1", 100)]));
    assert_eq!(p.ledger().get(1).unwrap().status, TransferStatus::Acknowledged);
}

#[test]
fn resync_closes_pending_entries() {
    let mut p = engine();
    p.submit(OWNER, 1, delegate("V1", 100), 1, 1).unwrap();
    p.submit(OWNER, 2, delegate("V2", 100), 1, 1).unwrap();
    p.on_ack(1, AckOutcome::Success, None);
    let imposed = snapshot(&[("V1", 100), ("V2", 100)]);
    assert_eq!(p.resync(OWNER, imposed.clone()), Ok(()));
    assert_eq!(p.state().status, Status::Idle);
    assert_eq!(p.state().pending, Vec::<u64>::new());
    assert_eq!(p.state().confirmed_snapshot, imposed);
    assert_eq!(p.ledger().len(), 2);
    assert_eq!(p.ledger().get(0).unwrap().status, TransferStatus::Acknowledged);
    assert_eq!(p.ledger().get(1).unwrap().status, TransferStatus::TimedOut);
    // The late acknowledgement finds nothing pending.
    assert_eq!(p.on_ack(2, AckOutcome::Success, None), AckDisposition::Ignored);
    let estimate = p.current_estimate();
    assert!(estimate.delegations.iter().all(|d| d.confirmed == d.estimated));
}

#[test]
fn owner_replaces_config() {
    let mut p = engine();
    let mut next = config();
    next.owner = "neutron1next".to_string();
    next.update_period = 7;
    assert_eq!(p.update_config(OWNER, next.clone()), Ok(()));
    assert_eq!(p.config(), Some(next));
    assert_eq!(p.submit(OWNER, 1, delegate("V1", 1), 1, 1), Err(ContractError::Unauthorized));
    assert_eq!(p.submit("neutron1next", 1, delegate("V1", 1), 1, 1), Ok(1));
}

#[test]
fn queries_project_the_instance() {
    let mut p = engine();
    p.submit(OWNER, 1, delegate("V1", 100), 1, 1).unwrap();
    p.submit(OWNER, 2, undelegate("V1", 30), 2, 2).unwrap();
    p.on_ack(1, AckOutcome::Success, Some(snapshot(&[("V1", 100)])));
    let before = p.clone();
    assert_eq!(p.query(QueryMsg::Config {}), Ok(QueryResponse::Config(config())));
    assert_eq!(
        p.query(QueryMsg::State {}),
        Ok(QueryResponse::State(State {
            confirmed_snapshot: snapshot(&[("V1", 100)]),
            pending: vec![2],
            status: Status::AwaitingAck,
        }))
    );
    assert_eq!(
        p.query(QueryMsg::InterchainTransactions {}),
        Ok(QueryResponse::InterchainTransactions(p.ledger().list(None)))
    );
    assert_eq!(p.ledger().list(None).len(), 2);
    assert_eq!(
        p.query(QueryMsg::Delegations {}),
        Ok(QueryResponse::Delegations(p.current_estimate()))
    );
    assert_eq!(
        p.current_estimate().delegations,
        vec![DelegationEstimate { validator: "V1".to_string(), confirmed: 100, estimated: 70 }]
    );
    assert_eq!(p, before);
}

#[test]
fn restore_accepts_what_an_instance_holds() {
    let mut p = engine();
    p.submit(OWNER, 1, delegate("V1", 100), 1, 1).unwrap();
    p.submit(OWNER, 2, undelegate("V1", 30), 2, 2).unwrap();
    p.on_ack(1, AckOutcome::Rejected, None);
    let restored = Puppeteer::restore(p.config(), p.state(), p.ledger().list(None));
    assert_eq!(restored, Some(p));
}

#[test]
fn restore_rejects_what_does_not_fit() {
    let mut p = engine();
    p.submit(OWNER, 1, delegate("V1", 100), 1, 1).unwrap();
    p.submit(OWNER, 2, undelegate("V1", 30), 2, 2).unwrap();
    let entries = p.ledger().list(None);

    let mut state = p.state();
    state.pending = vec![1];
    assert_eq!(Puppeteer::restore(p.config(), state, entries.clone()), None);

    let mut state = p.state();
    state.status = Status::Idle;
    assert_eq!(Puppeteer::restore(p.config(), state, entries.clone()), None);

    let mut doubled = entries.clone();
    doubled[1].sequence = 1;
    assert_eq!(Puppeteer::restore(p.config(), p.state(), doubled), None);

    assert_eq!(Puppeteer::restore(None, p.state(), entries.clone()), None);

    let mut state = p.state();
    state.pending = Vec::new();
    state.status = Status::AwaitingAck;
    assert_eq!(Puppeteer::restore(p.config(), state, Vec::new()), None);

    let mut state = p.state();
    state.status = Status::NeedsResync;
    assert!(Puppeteer::restore(p.config(), state, entries).is_some());
}
