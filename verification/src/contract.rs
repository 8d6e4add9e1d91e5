//! The treasury registry and its proposal state machine.
//!
//! The registry owns every stored proposal and the running count, hands out
//! dense, strictly increasing ids, accumulates distinct approvals, and once
//! the quorum is reached disburses a batch exactly once. Disbursement is
//! returned to the caller as a list of transfer instructions; the host that
//! embeds the registry performs them and owns authentication, durability and
//! event delivery.

use vstd::prelude::*;
use vstd::pervasive::VecAdditionalExecFns;

use crate::proposal::PayrollProposal;
use crate::proposal::ProposalModel;
use crate::proposal::TreasuryError;
use crate::proposal::contains_handle;
use crate::proposal::distinct_handles;
use crate::proposal::lemma_distinct_push;

verus! {

/// The default quorum: two distinct approvals.
pub const REQUIRED_APPROVALS: u32 = 2;

/// The key layout of the persistent store in which a host keeps the
/// registry: the running count under `ProposalCount`, and each proposal
/// under `Proposal(id)`.
#[derive(Copy, Clone, Debug, PartialEq, Eq, Structural)]
pub enum DataKey {
    Proposal(u32),
    ProposalCount,
}

/// One transfer instruction: move `amount` of `token` from the custodial
/// balance to `to`.
#[derive(Copy, Clone, Debug, PartialEq, Eq, Structural)]
pub struct Transfer {
    pub token: u64,
    pub to: u64,
    pub amount: i128,
}

/// The mathematical model of the whole registry.
#[verifier::ext_equal]
pub ghost struct TreasuryModel {
    pub required_approvals: u32,
    pub count: u32,
    pub proposals: Seq<ProposalModel>,
}

impl TreasuryModel {
    /// Registry well-formedness: the count agrees with the store, ids are
    /// dense starting at 1, and every stored proposal is well-formed.
    pub open spec fn wf(self) -> bool {
        &&& self.count as int == self.proposals.len()
        &&& forall|i: int| 0 <= i < self.proposals.len() ==>
                (#[trigger] self.proposals[i]).wf() && self.proposals[i].proposal_id as int == i + 1
    }

    /// A proposal is stored under `id`.
    pub open spec fn has_proposal(self, id: u32) -> bool {
        1 <= id && id as int <= self.proposals.len()
    }

    /// The proposal stored under `id`.
    pub open spec fn proposal(self, id: u32) -> ProposalModel
        recommends
            self.has_proposal(id),
    {
        self.proposals[id as int - 1]
    }
}

/// The registry whose store holds exactly `proposals`, in id order.
pub open spec fn registry_of(required_approvals: u32, proposals: Seq<ProposalModel>) -> TreasuryModel {
    TreasuryModel {
        required_approvals: required_approvals,
        count: proposals.len() as u32,
        proposals: proposals,
    }
}

/// One successful creation step: `post` is `pre` with one freshly created,
/// well-formed batch appended under the next id, and the count advanced.
pub open spec fn created_from(
    pre: TreasuryModel,
    post: TreasuryModel,
    proposer: u64,
    employees: Seq<u64>,
    amounts: Seq<i128>,
    id: u32,
) -> bool {
    &&& employees.len() >= 1
    &&& employees.len() == amounts.len()
    &&& id as int == pre.count + 1
    &&& post.required_approvals == pre.required_approvals
    &&& post.count as int == pre.count + 1
    &&& post.proposals == pre.proposals.push(ProposalModel::fresh(id, proposer, employees, amounts))
}

/// One successful approval step: the proposal under `id` was open and had no
/// vote from `approver`; `post` records exactly that one further vote.
pub open spec fn approved_from(pre: TreasuryModel, post: TreasuryModel, approver: u64, id: u32) -> bool {
    &&& pre.has_proposal(id)
    &&& !pre.proposal(id).executed
    &&& !pre.proposal(id).approvers.contains(approver)
    &&& pre.proposal(id).approvals < u32::MAX
    &&& post.required_approvals == pre.required_approvals
    &&& post.count == pre.count
    &&& post.proposals == pre.proposals.update(id - 1, pre.proposal(id).with_approval(approver))
}

/// One successful disbursement step: the proposal under `id` was open with
/// the quorum reached; `post` marks it terminal and changes nothing else.
pub open spec fn executed_from(pre: TreasuryModel, post: TreasuryModel, id: u32) -> bool {
    &&& pre.has_proposal(id)
    &&& !pre.proposal(id).executed
    &&& pre.proposal(id).approvals >= pre.required_approvals
    &&& post.required_approvals == pre.required_approvals
    &&& post.count == pre.count
    &&& post.proposals == pre.proposals.update(id - 1, pre.proposal(id).as_executed())
}

/// A creation step preserves registry well-formedness.
pub proof fn lemma_created_preserves_wf(
    pre: TreasuryModel,
    post: TreasuryModel,
    proposer: u64,
    employees: Seq<u64>,
    amounts: Seq<i128>,
    id: u32,
)
    requires
        pre.wf(),
        created_from(pre, post, proposer, employees, amounts, id),
    ensures
        post.wf(),
{
    assert forall|i: int| 0 <= i < post.proposals.len() implies
        (#[trigger] post.proposals[i]).wf() && post.proposals[i].proposal_id as int == i + 1 by {
        if i < pre.proposals.len() {
            assert(post.proposals[i] == pre.proposals[i]);
        } else {
            assert(post.proposals[i] == ProposalModel::fresh(id, proposer, employees, amounts));
        }
    }
}

/// An approval step preserves registry well-formedness.
pub proof fn lemma_approved_preserves_wf(
    pre: TreasuryModel,
    post: TreasuryModel,
    approver: u64,
    id: u32,
)
    requires
        pre.wf(),
        approved_from(pre, post, approver, id),
    ensures
        post.wf(),
{
    lemma_distinct_push(pre.proposal(id).approvers, approver);
    assert forall|i: int| 0 <= i < post.proposals.len() implies
        (#[trigger] post.proposals[i]).wf() && post.proposals[i].proposal_id as int == i + 1 by {
        if i == id - 1 {
            assert(post.proposals[i] == pre.proposal(id).with_approval(approver));
        } else {
            assert(post.proposals[i] == pre.proposals[i]);
        }
    }
}

/// A disbursement step preserves registry well-formedness.
pub proof fn lemma_executed_preserves_wf(pre: TreasuryModel, post: TreasuryModel, id: u32)
    requires
        pre.wf(),
        executed_from(pre, post, id),
    ensures
        post.wf(),
{
    assert forall|i: int| 0 <= i < post.proposals.len() implies
        (#[trigger] post.proposals[i]).wf() && post.proposals[i].proposal_id as int == i + 1 by {
        if i == id - 1 {
            assert(post.proposals[i] == pre.proposal(id).as_executed());
        } else {
            assert(post.proposals[i] == pre.proposals[i]);
        }
    }
}

/// The transfer instructions that disburse proposal `p`: one transfer of
/// `token` per payee, in payee order, positionally paired with the amounts.
pub open spec fn transfer_seq(token: u64, p: ProposalModel) -> Seq<Transfer> {
    Seq::new(p.employees.len(), |i: int| Transfer { token: token, to: p.employees[i], amount: p.amounts[i] })
}

/// The verified treasury: proposal `id` is held at index `id - 1`.
pub struct TreasuryContract {
    required_approvals: u32,
    count: u32,
    proposals: Vec<PayrollProposal>,
}

impl View for TreasuryContract {
    type V = TreasuryModel;

    closed spec fn view(&self) -> TreasuryModel {
        TreasuryModel {
            required_approvals: self.required_approvals,
            count: self.count,
            proposals: self.proposals@.map_values(|p: PayrollProposal| p@),
        }
    }
}

impl TreasuryContract {
    /// An empty registry that will demand `required_approvals` distinct
    /// votes before a batch may be disbursed.
    pub fn new(required_approvals: u32) -> (r: TreasuryContract)
        ensures
            r@.wf(),
            r@.required_approvals == required_approvals,
            r@.count == 0,
            r@.proposals == Seq::<ProposalModel>::empty(),
    {
        let r = TreasuryContract { required_approvals, count: 0, proposals: Vec::new() };
        proof {
            assert(r@.proposals =~= Seq::<ProposalModel>::empty());
        }
        r
    }

    /// Rebuild a registry from stored proposal records, given in id order.
    /// This is the restart path of a host that keeps each record durably
    /// under its id: the records are accepted exactly when they form a
    /// well-formed registry (ids dense from 1, every batch non-empty with
    /// positionally paired amounts, approval counts agreeing with
    /// duplicate-free approver lists).
    #[verifier::loop_isolation(false)]
    pub fn from_records(required_approvals: u32, records: Vec<PayrollProposal>) -> (r: Option<
        TreasuryContract,
    >)
        ensures
            r is Some <==> records@.len() <= u32::MAX
                && registry_of(required_approvals, records@.map_values(|p: PayrollProposal| p@)).wf(),
            r matches Some(t) ==> t@ == registry_of(
                required_approvals,
                records@.map_values(|p: PayrollProposal| p@),
            ),
    {
        let ghost ms: Seq<ProposalModel> = records@.map_values(|p: PayrollProposal| p@);
        let ghost m: TreasuryModel = registry_of(required_approvals, ms);
        if records.len() > (u32::MAX as usize) {
            return None;
        }
        let n: usize = records.len();
        let mut i: usize = 0;
        while i < n
            invariant
                i <= n,
                forall|k: int| 0 <= k < i ==>
                    (#[trigger] ms[k]).wf() && ms[k].proposal_id as int == k + 1,
            decreases n - i,
        {
            let p: &PayrollProposal = &records[i];
            proof {
                assert(ms[i as int] == records@[i as int]@);
            }
            if (p.proposal_id as usize) != i + 1 {
                proof {
                    assert(!m.wf()) by {
                        if m.wf() {
                            assert(m.proposals[i as int].proposal_id as int == i + 1);
                        }
                    }
                }
                return None;
            }
            if p.employees.len() == 0 || p.employees.len() != p.amounts.len()
                || (p.approvals as usize) != p.approvers.len() || !distinct_handles(&p.approvers) {
                proof {
                    assert(!m.wf()) by {
                        if m.wf() {
                            assert(m.proposals[i as int].wf());
                        }
                    }
                }
                return None;
            }
            i = i + 1;
        }
        let count: u32 = records.len() as u32;
        let t = TreasuryContract { required_approvals: required_approvals, count: count, proposals: records };
        proof {
            assert(t@.proposals =~= ms);
            assert(t@ =~= m);
        }
        Some(t)
    }

    /// How many proposals have ever been created.
    pub fn proposal_count(&self) -> (r: u32)
        ensures
            r == self@.count,
    {
        self.count
    }

    /// The quorum this registry was created with.
    pub fn required_approvals(&self) -> (r: u32)
        ensures
            r == self@.required_approvals,
    {
        self.required_approvals
    }

    /// Submit a payroll batch. An empty batch and mismatched list lengths
    /// are rejected without touching the registry; otherwise the batch is
    /// stored under the next id, which is returned.
    ///
    /// The host must prove the caller controls `proposer` before invoking
    /// this.
    pub fn create_proposal(
        &mut self,
        proposer: u64,
        employees: Vec<u64>,
        amounts: Vec<i128>,
    ) -> (r: Result<u32, TreasuryError>)
        requires
            old(self)@.wf(),
            employees@.len() >= 1 && employees@.len() == amounts@.len() ==> old(self)@.count < u32::MAX,
        ensures
            final(self)@.wf(),
            employees@.len() == 0 ==> r == Err::<u32, TreasuryError>(TreasuryError::EmptyPayroll)
                && final(self)@ == old(self)@,
            employees@.len() >= 1 && employees@.len() != amounts@.len() ==>
                r == Err::<u32, TreasuryError>(TreasuryError::MismatchedLengths)
                && final(self)@ == old(self)@,
            employees@.len() >= 1 && employees@.len() == amounts@.len() ==> {
                &&& r == Ok::<u32, TreasuryError>((old(self)@.count + 1) as u32)
                &&& created_from(old(self)@, final(self)@, proposer, employees@, amounts@,
                        (old(self)@.count + 1) as u32)
            },
    {
        let ghost emps: Seq<u64> = employees@;
        let ghost amts: Seq<i128> = amounts@;
        if employees.len() == 0 {
            return Err(TreasuryError::EmptyPayroll);
        }
        if employees.len() != amounts.len() {
            return Err(TreasuryError::MismatchedLengths);
        }
        let id: u32 = self.count + 1;
        let prop = PayrollProposal {
            proposal_id: id,
            proposer: proposer,
            employees: employees,
            amounts: amounts,
            approvals: 0,
            approvers: Vec::new(),
            executed: false,
        };
        let ghost pm: ProposalModel = prop@;
        self.proposals.push(prop);
        self.count = id;
        proof {
            assert(pm =~= ProposalModel::fresh(id, proposer, emps, amts));
            assert(self@.proposals =~= old(self)@.proposals.push(pm));
            lemma_created_preserves_wf(old(self)@, self@, proposer, emps, amts, id);
        }
        Ok(id)
    }

    /// Record one vote from `approver` on the proposal under `proposal_id`.
    /// A missing proposal, a terminal proposal and a repeated identity are
    /// rejected without touching the registry; otherwise exactly one further
    /// vote is recorded.
    ///
    /// The host must prove the caller controls `approver` before invoking
    /// this.
    pub fn approve_proposal(&mut self, approver: u64, proposal_id: u32) -> (r: Result<(), TreasuryError>)
        requires
            old(self)@.wf(),
            old(self)@.has_proposal(proposal_id)
                && !old(self)@.proposal(proposal_id).executed
                && !old(self)@.proposal(proposal_id).approvers.contains(approver)
                ==> old(self)@.proposal(proposal_id).approvals < u32::MAX,
        ensures
            final(self)@.wf(),
            !old(self)@.has_proposal(proposal_id) ==>
                r == Err::<(), TreasuryError>(TreasuryError::ProposalNotFound)
                && final(self)@ == old(self)@,
            old(self)@.has_proposal(proposal_id) && old(self)@.proposal(proposal_id).executed ==>
                r == Err::<(), TreasuryError>(TreasuryError::AlreadyExecuted)
                && final(self)@ == old(self)@,
            old(self)@.has_proposal(proposal_id) && !old(self)@.proposal(proposal_id).executed
                && old(self)@.proposal(proposal_id).approvers.contains(approver) ==>
                r == Err::<(), TreasuryError>(TreasuryError::AlreadyApproved)
                && final(self)@ == old(self)@,
            old(self)@.has_proposal(proposal_id) && !old(self)@.proposal(proposal_id).executed
                && !old(self)@.proposal(proposal_id).approvers.contains(approver) ==> {
                &&& r == Ok::<(), TreasuryError>(())
                &&& approved_from(old(self)@, final(self)@, approver, proposal_id)
            },
    {
        if proposal_id < 1 || (proposal_id as usize) > self.proposals.len() {
            return Err(TreasuryError::ProposalNotFound);
        }
        let idx: usize = (proposal_id - 1) as usize;
        let mut proposal = self.proposals[idx].clone();
        proof {
            assert(proposal@ == old(self)@.proposal(proposal_id));
            assert(old(self)@.proposals[proposal_id - 1].wf());
        }
        if proposal.executed {
            return Err(TreasuryError::AlreadyExecuted);
        }
        if contains_handle(&proposal.approvers, approver) {
            return Err(TreasuryError::AlreadyApproved);
        }
        proposal.approvals = proposal.approvals + 1;
        proposal.approvers.push(approver);
        let ghost pm: ProposalModel = proposal@;
        self.proposals.set(idx, proposal);
        proof {
            assert(pm =~= old(self)@.proposal(proposal_id).with_approval(approver));
            assert(self@.proposals =~= old(self)@.proposals.update(proposal_id - 1, pm));
            lemma_approved_preserves_wf(old(self)@, self@, approver, proposal_id);
        }
        Ok(())
    }

    /// Disburse the batch under `proposal_id`. A missing proposal, a
    /// terminal proposal and a quorum not yet reached are rejected without
    /// touching the registry; otherwise the proposal becomes terminal and
    /// the returned instructions transfer each amount of `token` to its
    /// payee, in payee order.
    ///
    /// The host must prove the caller controls `executor` before invoking
    /// this, and must perform the returned transfers from the custodial
    /// balance.
    #[allow(unused_variables)]
    pub fn execute_proposal(&mut self, executor: u64, proposal_id: u32, token: u64) -> (r: Result<
        Vec<Transfer>,
        TreasuryError,
    >)
        requires
            old(self)@.wf(),
        ensures
            final(self)@.wf(),
            !old(self)@.has_proposal(proposal_id) ==>
                (r matches Err(e) && e == TreasuryError::ProposalNotFound)
                && final(self)@ == old(self)@,
            old(self)@.has_proposal(proposal_id) && old(self)@.proposal(proposal_id).executed ==>
                (r matches Err(e) && e == TreasuryError::AlreadyExecuted)
                && final(self)@ == old(self)@,
            old(self)@.has_proposal(proposal_id) && !old(self)@.proposal(proposal_id).executed
                && old(self)@.proposal(proposal_id).approvals < old(self)@.required_approvals ==>
                (r matches Err(e) && e == TreasuryError::NotEnoughApprovals)
                && final(self)@ == old(self)@,
            old(self)@.has_proposal(proposal_id) && !old(self)@.proposal(proposal_id).executed
                && old(self)@.proposal(proposal_id).approvals >= old(self)@.required_approvals ==> {
                &&& (r matches Ok(ts) && ts@ == transfer_seq(token, old(self)@.proposal(proposal_id)))
                &&& executed_from(old(self)@, final(self)@, proposal_id)
            },
    {
        if proposal_id < 1 || (proposal_id as usize) > self.proposals.len() {
            return Err(TreasuryError::ProposalNotFound);
        }
        let idx: usize = (proposal_id - 1) as usize;
        let mut proposal = self.proposals[idx].clone();
        proof {
            assert(proposal@ == old(self)@.proposal(proposal_id));
            assert(old(self)@.proposals[proposal_id - 1].wf());
        }
        if proposal.executed {
            return Err(TreasuryError::AlreadyExecuted);
        }
        if proposal.approvals < self.required_approvals {
            return Err(TreasuryError::NotEnoughApprovals);
        }
        let n: usize = proposal.employees.len();
        let mut transfers: Vec<Transfer> = Vec::new();
        let mut i: usize = 0;
        while i < n
            invariant
                i <= n,
                n == proposal@.employees.len(),
                proposal@.employees.len() == proposal@.amounts.len(),
                transfers@.len() == i,
                forall|k: int| 0 <= k < i ==> transfers@[k] == (Transfer {
                    token: token,
                    to: proposal@.employees[k],
                    amount: proposal@.amounts[k],
                }),
            decreases n - i,
        {
            let to: u64 = proposal.employees[i];
            let amount: i128 = proposal.amounts[i];
            transfers.push(Transfer { token: token, to: to, amount: amount });
            i = i + 1;
        }
        proposal.executed = true;
        let ghost pm: ProposalModel = proposal@;
        self.proposals.set(idx, proposal);
        proof {
            assert(pm =~= old(self)@.proposal(proposal_id).as_executed());
            assert(self@.proposals =~= old(self)@.proposals.update(proposal_id - 1, pm));
            assert(transfers@ =~= transfer_seq(token, old(self)@.proposal(proposal_id)));
            lemma_executed_preserves_wf(old(self)@, self@, proposal_id);
        }
        Ok(transfers)
    }

    /// The proposal stored under `proposal_id`, or `ProposalNotFound`.
    /// Read-only: no authorization is required and nothing changes.
    pub fn get_proposal(&self, proposal_id: u32) -> (r: Result<PayrollProposal, TreasuryError>)
        ensures
            self@.has_proposal(proposal_id) ==>
                (r matches Ok(p) && p@ == self@.proposal(proposal_id)),
            !self@.has_proposal(proposal_id) ==>
                (r matches Err(e) && e == TreasuryError::ProposalNotFound),
    {
        if proposal_id < 1 || (proposal_id as usize) > self.proposals.len() {
            return Err(TreasuryError::ProposalNotFound);
        }
        let idx: usize = (proposal_id - 1) as usize;
        Ok(self.proposals[idx].clone())
    }
}

} // verus!
