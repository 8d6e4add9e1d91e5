//! Laws of the proposal state machine, stated and proved once and for all
//! over the registry model. Together with the contracts of the registry
//! methods they pin down id issuance, vote idempotence and terminality.

use vstd::prelude::*;

use crate::contract::TreasuryModel;
use crate::contract::approved_from;
use crate::contract::created_from;
use crate::contract::executed_from;
use crate::contract::lemma_approved_preserves_wf;
use crate::contract::lemma_created_preserves_wf;
use crate::contract::lemma_executed_preserves_wf;

verus! {

/// Ids are dense and strictly increasing. A successful creation returns
/// exactly the registry count as it stands immediately after the creation;
/// two successive successful creations return strictly increasing ids; and
/// the first creation on a fresh registry returns 1.
pub proof fn lemma_ids_strictly_increase(
    pre: TreasuryModel,
    mid: TreasuryModel,
    post: TreasuryModel,
    proposer1: u64,
    employees1: Seq<u64>,
    amounts1: Seq<i128>,
    id1: u32,
    proposer2: u64,
    employees2: Seq<u64>,
    amounts2: Seq<i128>,
    id2: u32,
)
    requires
        pre.wf(),
        created_from(pre, mid, proposer1, employees1, amounts1, id1),
        created_from(mid, post, proposer2, employees2, amounts2, id2),
    ensures
        id1 == mid.count,
        id2 == post.count,
        0 < id1 < id2,
        pre.count == 0 ==> id1 == 1,
{
}

/// One identity, one vote. After a successful approval the voter stands on
/// the approver list of a proposal that is still open, so by the contract
/// of `approve_proposal` a second call with the same identity fails with
/// `AlreadyApproved` and leaves the registry — in particular the recorded
/// approval count — unchanged.
pub proof fn lemma_second_approval_is_duplicate(
    pre: TreasuryModel,
    post: TreasuryModel,
    approver: u64,
    id: u32,
)
    requires
        pre.wf(),
        approved_from(pre, post, approver, id),
    ensures
        post.has_proposal(id),
        !post.proposal(id).executed,
        post.proposal(id).approvers.contains(approver),
        post.proposal(id).approvals == pre.proposal(id).approvals + 1,
{
    let s = pre.proposal(id).approvers;
    assert(post.proposal(id).approvers == s.push(approver));
    assert(s.push(approver)[s.len() as int] == approver);
}

/// Disbursement is terminal. After a successful `execute_proposal` the
/// proposal is still stored and marked executed, so by the contracts of
/// `approve_proposal` and `execute_proposal` every further vote and every
/// further disbursement of it fails with `AlreadyExecuted`, and
/// `get_proposal` returns a record whose `executed` flag is set.
pub proof fn lemma_executed_is_terminal(pre: TreasuryModel, post: TreasuryModel, id: u32)
    requires
        pre.wf(),
        executed_from(pre, post, id),
    ensures
        post.has_proposal(id),
        post.proposal(id).executed,
        post.proposal(id).approvals == pre.proposal(id).approvals,
        post.count == pre.count,
{
}

/// Any single step of the state machine: some creation, approval or
/// disbursement succeeded.
pub open spec fn step(pre: TreasuryModel, post: TreasuryModel) -> bool {
    ||| exists|proposer: u64, employees: Seq<u64>, amounts: Seq<i128>, id: u32|
        created_from(pre, post, proposer, employees, amounts, id)
    ||| exists|approver: u64, id: u32| approved_from(pre, post, approver, id)
    ||| exists|id: u32| executed_from(pre, post, id)
}

/// Every step of the state machine preserves registry well-formedness, so
/// every registry reachable from a well-formed one — in particular from a
/// fresh one — is well-formed: its count agrees with its store, its ids are
/// dense from 1, and every record keeps its approval count equal to its
/// duplicate-free approver list and its amounts paired with its payees.
pub proof fn lemma_step_preserves_wf(pre: TreasuryModel, post: TreasuryModel)
    requires
        pre.wf(),
        step(pre, post),
    ensures
        post.wf(),
{
    if exists|proposer: u64, employees: Seq<u64>, amounts: Seq<i128>, id: u32|
        created_from(pre, post, proposer, employees, amounts, id) {
        let (proposer, employees, amounts, id): (u64, Seq<u64>, Seq<i128>, u32) =
            choose|proposer: u64, employees: Seq<u64>, amounts: Seq<i128>, id: u32|
                created_from(pre, post, proposer, employees, amounts, id);
        lemma_created_preserves_wf(pre, post, proposer, employees, amounts, id);
    } else if exists|approver: u64, id: u32| approved_from(pre, post, approver, id) {
        let (approver, id): (u64, u32) = choose|approver: u64, id: u32|
            approved_from(pre, post, approver, id);
        lemma_approved_preserves_wf(pre, post, approver, id);
    } else {
        let id: u32 = choose|id: u32| executed_from(pre, post, id);
        lemma_executed_preserves_wf(pre, post, id);
    }
}

/// A terminal proposal is immutable. Across any step of the state machine a
/// proposal once marked executed is still stored, and its record — flag,
/// votes, payees and amounts — is entirely unchanged.
pub proof fn lemma_terminal_is_immutable(pre: TreasuryModel, post: TreasuryModel, j: u32)
    requires
        pre.wf(),
        step(pre, post),
        pre.has_proposal(j),
        pre.proposal(j).executed,
    ensures
        post.has_proposal(j),
        post.proposal(j) == pre.proposal(j),
{
    if exists|proposer: u64, employees: Seq<u64>, amounts: Seq<i128>, id: u32|
        created_from(pre, post, proposer, employees, amounts, id) {
        let (proposer, employees, amounts, id): (u64, Seq<u64>, Seq<i128>, u32) =
            choose|proposer: u64, employees: Seq<u64>, amounts: Seq<i128>, id: u32|
                created_from(pre, post, proposer, employees, amounts, id);
        assert(post.proposals[j - 1] == pre.proposals[j - 1]);
    } else if exists|approver: u64, id: u32| approved_from(pre, post, approver, id) {
        let (approver, id): (u64, u32) = choose|approver: u64, id: u32|
            approved_from(pre, post, approver, id);
        assert(id != j);
        assert(post.proposals[j - 1] == pre.proposals[j - 1]);
    } else {
        let id: u32 = choose|id: u32| executed_from(pre, post, id);
        assert(id != j);
        assert(post.proposals[j - 1] == pre.proposals[j - 1]);
    }
}

} // verus!
