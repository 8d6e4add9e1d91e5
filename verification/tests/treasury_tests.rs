use treasury::PayrollProposal;
use treasury::Transfer;
use treasury::TreasuryContract;
use treasury::TreasuryError;
use treasury::REQUIRED_APPROVALS;

const PROPOSER: u64 = 1;
const EMP_A: u64 = 10;
const EMP_B: u64 = 11;
const APP_A: u64 = 20;
const APP_B: u64 = 21;
const EXEC: u64 = 30;
const TOKEN: u64 = 40;

fn fresh_registry() -> TreasuryContract {
    TreasuryContract::new(REQUIRED_APPROVALS)
}

#[test]
fn test_create_proposal() {
    let mut t = fresh_registry();
    let proposal_id: u32 = t
        .create_proposal(PROPOSER, vec![EMP_A], vec![100i128])
        .unwrap();
    assert_eq!(proposal_id, 1);
}

#[test]
fn test_approve_proposal() {
    let mut t = fresh_registry();
    let proposal_id: u32 = t
        .create_proposal(PROPOSER, vec![EMP_A], vec![100i128])
        .unwrap();
    t.approve_proposal(APP_A, proposal_id).unwrap();
    let proposal_state: PayrollProposal = t.get_proposal(proposal_id).unwrap();
    assert_eq!(proposal_state.approvals, 1);
}

#[test]
fn test_execution_fails_without_multisig() {
    let mut t = fresh_registry();
    let proposal_id: u32 = t
        .create_proposal(PROPOSER, vec![EMP_A], vec![100i128])
        .unwrap();
    let result = t.execute_proposal(EXEC, proposal_id, TOKEN);
    assert!(result.is_err());
}

#[test]
fn test_ids_are_dense_and_increasing() {
    let mut t = fresh_registry();
    let id1 = t.create_proposal(PROPOSER, vec![EMP_A], vec![1i128]).unwrap();
    let id2 = t.create_proposal(PROPOSER, vec![EMP_B], vec![2i128]).unwrap();
    let id3 = t.create_proposal(APP_A, vec![EMP_A, EMP_B], vec![3i128, 4i128]).unwrap();
    assert_eq!(id1, 1);
    assert_eq!(id2, 2);
    assert_eq!(id3, 3);
    assert_eq!(t.proposal_count(), 3);
}

#[test]
fn test_created_id_equals_count() {
    let mut t = fresh_registry();
    let id = t.create_proposal(PROPOSER, vec![EMP_A], vec![100i128]).unwrap();
    assert_eq!(id, t.proposal_count());
}

#[test]
fn test_empty_batch_rejected_without_counting() {
    let mut t = fresh_registry();
    let r = t.create_proposal(PROPOSER, vec![], vec![]);
    assert_eq!(r, Err(TreasuryError::EmptyPayroll));
    assert_eq!(t.proposal_count(), 0);
    let id = t.create_proposal(PROPOSER, vec![EMP_A], vec![100i128]).unwrap();
    assert_eq!(id, 1);
}

#[test]
fn test_mismatched_lengths_rejected_without_counting() {
    let mut t = fresh_registry();
    let r = t.create_proposal(PROPOSER, vec![EMP_A, EMP_B], vec![100i128]);
    assert_eq!(r, Err(TreasuryError::MismatchedLengths));
    assert_eq!(t.proposal_count(), 0);
}

#[test]
fn test_new_proposal_record() {
    let mut t = fresh_registry();
    let id = t
        .create_proposal(PROPOSER, vec![EMP_A, EMP_B], vec![100i128, 200i128])
        .unwrap();
    let p = t.get_proposal(id).unwrap();
    assert_eq!(p.proposal_id, 1);
    assert_eq!(p.proposer, PROPOSER);
    assert_eq!(p.employees, vec![EMP_A, EMP_B]);
    assert_eq!(p.amounts, vec![100i128, 200i128]);
    assert_eq!(p.approvals, 0);
    assert!(p.approvers.is_empty());
    assert!(!p.executed);
}

#[test]
fn test_duplicate_approval_rejected() {
    let mut t = fresh_registry();
    let id = t.create_proposal(PROPOSER, vec![EMP_A], vec![100i128]).unwrap();
    t.approve_proposal(APP_A, id).unwrap();
    let second = t.approve_proposal(APP_A, id);
    assert_eq!(second, Err(TreasuryError::AlreadyApproved));
    assert_eq!(t.get_proposal(id).unwrap().approvals, 1);
}

#[test]
fn test_approvers_recorded_in_order() {
    let mut t = fresh_registry();
    let id = t.create_proposal(PROPOSER, vec![EMP_A], vec![100i128]).unwrap();
    t.approve_proposal(APP_A, id).unwrap();
    t.approve_proposal(APP_B, id).unwrap();
    let p = t.get_proposal(id).unwrap();
    assert_eq!(p.approvals, 2);
    assert_eq!(p.approvers, vec![APP_A, APP_B]);
}

#[test]
fn test_missing_proposal_not_found() {
    let mut t = fresh_registry();
    assert_eq!(t.get_proposal(1), Err(TreasuryError::ProposalNotFound));
    assert_eq!(t.get_proposal(0), Err(TreasuryError::ProposalNotFound));
    assert_eq!(
        t.approve_proposal(APP_A, 7),
        Err(TreasuryError::ProposalNotFound)
    );
    assert_eq!(
        t.execute_proposal(EXEC, 7, TOKEN),
        Err(TreasuryError::ProposalNotFound)
    );
}

#[test]
fn test_execute_succeeds_exactly_once() {
    let mut t = fresh_registry();
    let id = t.create_proposal(PROPOSER, vec![EMP_A], vec![100i128]).unwrap();
    t.approve_proposal(APP_A, id).unwrap();
    let early = t.execute_proposal(EXEC, id, TOKEN);
    assert_eq!(early, Err(TreasuryError::NotEnoughApprovals));
    t.approve_proposal(APP_B, id).unwrap();
    let first = t.execute_proposal(EXEC, id, TOKEN);
    assert!(first.is_ok());
    let second = t.execute_proposal(EXEC, id, TOKEN);
    assert_eq!(second, Err(TreasuryError::AlreadyExecuted));
}

#[test]
fn test_executed_proposal_is_terminal() {
    let mut t = fresh_registry();
    let id = t.create_proposal(PROPOSER, vec![EMP_A], vec![100i128]).unwrap();
    t.approve_proposal(APP_A, id).unwrap();
    t.approve_proposal(APP_B, id).unwrap();
    t.execute_proposal(EXEC, id, TOKEN).unwrap();
    let p = t.get_proposal(id).unwrap();
    assert!(p.executed);
    assert_eq!(
        t.approve_proposal(EXEC, id),
        Err(TreasuryError::AlreadyExecuted)
    );
    assert_eq!(t.get_proposal(id).unwrap().approvals, 2);
}

#[test]
fn test_single_payee_scenario() {
    let mut t = fresh_registry();
    let id = t.create_proposal(PROPOSER, vec![EMP_A], vec![100i128]).unwrap();
    assert_eq!(id, 1);
    t.approve_proposal(APP_A, 1).unwrap();
    assert_eq!(t.get_proposal(1).unwrap().approvals, 1);
    assert_eq!(
        t.approve_proposal(APP_A, 1),
        Err(TreasuryError::AlreadyApproved)
    );
    assert_eq!(t.get_proposal(1).unwrap().approvals, 1);
    assert_eq!(
        t.execute_proposal(EXEC, 1, TOKEN),
        Err(TreasuryError::NotEnoughApprovals)
    );
    t.approve_proposal(APP_B, 1).unwrap();
    assert_eq!(t.get_proposal(1).unwrap().approvals, 2);
    let transfers = t.execute_proposal(EXEC, 1, TOKEN).unwrap();
    assert_eq!(
        transfers,
        vec![Transfer {
            token: TOKEN,
            to: EMP_A,
            amount: 100i128,
        }]
    );
    assert!(t.get_proposal(1).unwrap().executed);
    assert_eq!(
        t.execute_proposal(EXEC, 1, TOKEN),
        Err(TreasuryError::AlreadyExecuted)
    );
}

#[test]
fn test_two_payees_transfer_order() {
    let mut t = fresh_registry();
    let id = t
        .create_proposal(PROPOSER, vec![EMP_A, EMP_B], vec![100i128, 200i128])
        .unwrap();
    t.approve_proposal(APP_A, id).unwrap();
    t.approve_proposal(APP_B, id).unwrap();
    let transfers = t.execute_proposal(EXEC, id, TOKEN).unwrap();
    assert_eq!(transfers.len(), 2);
    assert_eq!(
        transfers[0],
        Transfer {
            token: TOKEN,
            to: EMP_A,
            amount: 100i128,
        }
    );
    assert_eq!(
        transfers[1],
        Transfer {
            token: TOKEN,
            to: EMP_B,
            amount: 200i128,
        }
    );
}

#[test]
fn test_quorum_is_configurable() {
    let mut t = TreasuryContract::new(1);
    assert_eq!(t.required_approvals(), 1);
    let id = t.create_proposal(PROPOSER, vec![EMP_A], vec![100i128]).unwrap();
    assert_eq!(
        t.execute_proposal(EXEC, id, TOKEN),
        Err(TreasuryError::NotEnoughApprovals)
    );
    t.approve_proposal(APP_A, id).unwrap();
    assert!(t.execute_proposal(EXEC, id, TOKEN).is_ok());
}

#[test]
fn test_from_records_round_trip() {
    let mut t = fresh_registry();
    t.create_proposal(PROPOSER, vec![EMP_A], vec![100i128]).unwrap();
    t.create_proposal(PROPOSER, vec![EMP_B], vec![200i128]).unwrap();
    t.approve_proposal(APP_A, 1).unwrap();
    let records = vec![t.get_proposal(1).unwrap(), t.get_proposal(2).unwrap()];
    let mut restored = TreasuryContract::from_records(REQUIRED_APPROVALS, records).unwrap();
    assert_eq!(restored.proposal_count(), 2);
    assert_eq!(restored.get_proposal(1).unwrap(), t.get_proposal(1).unwrap());
    assert_eq!(restored.get_proposal(2).unwrap(), t.get_proposal(2).unwrap());
    restored.approve_proposal(APP_B, 1).unwrap();
    assert_eq!(restored.get_proposal(1).unwrap().approvals, 2);
}

#[test]
fn test_from_records_rejects_ill_formed_registries() {
    let record = |id: u32, approvals: u32, approvers: Vec<u64>| PayrollProposal {
        proposal_id: id,
        proposer: PROPOSER,
        employees: vec![EMP_A],
        amounts: vec![100i128],
        approvals,
        approvers,
        executed: false,
    };
    // id not dense from 1
    assert!(TreasuryContract::from_records(2, vec![record(2, 0, vec![])]).is_none());
    // duplicated approver
    assert!(
        TreasuryContract::from_records(2, vec![record(1, 2, vec![APP_A, APP_A])]).is_none()
    );
    // approval count off
    assert!(TreasuryContract::from_records(2, vec![record(1, 2, vec![APP_A])]).is_none());
    // empty batch
    let mut empty = record(1, 0, vec![]);
    empty.employees = vec![];
    empty.amounts = vec![];
    assert!(TreasuryContract::from_records(2, vec![empty]).is_none());
    // mismatched lengths
    let mut mismatched = record(1, 0, vec![]);
    mismatched.amounts = vec![100i128, 200i128];
    assert!(TreasuryContract::from_records(2, vec![mismatched]).is_none());
    // a well-formed single record is accepted
    assert!(TreasuryContract::from_records(2, vec![record(1, 1, vec![APP_A])]).is_some());
}

#[test]
fn test_negative_and_zero_amounts_pass_through() {
    let mut t = fresh_registry();
    let id = t
        .create_proposal(PROPOSER, vec![EMP_A, EMP_B], vec![0i128, -5i128])
        .unwrap();
    t.approve_proposal(APP_A, id).unwrap();
    t.approve_proposal(APP_B, id).unwrap();
    let transfers = t.execute_proposal(EXEC, id, TOKEN).unwrap();
    assert_eq!(transfers[0].amount, 0);
    assert_eq!(transfers[1].amount, -5);
}
