//! The proposal record: the durable entity the registry stores, one per
//! batch, together with its mathematical model and well-formedness.

use vstd::prelude::*;

verus! {

/// Why an operation on the registry was refused.
#[derive(Copy, Clone, Debug, PartialEq, Eq, Structural)]
pub enum TreasuryError {
    /// No proposal is stored under the given id.
    ProposalNotFound,
    /// The proposal is terminal: it has already been disbursed.
    AlreadyExecuted,
    /// Disbursement was requested before the quorum was reached.
    NotEnoughApprovals,
    /// The payee and amount lists differ in length.
    MismatchedLengths,
    /// The payee list is empty.
    EmptyPayroll,
    /// The same identity tried to approve a second time.
    AlreadyApproved,
}

/// The mathematical model of one stored proposal.
#[verifier::ext_equal]
pub ghost struct ProposalModel {
    pub proposal_id: u32,
    pub proposer: u64,
    pub employees: Seq<u64>,
    pub amounts: Seq<i128>,
    pub approvals: u32,
    pub approvers: Seq<u64>,
    pub executed: bool,
}

/// No identity occurs twice in `s`.
pub open spec fn distinct(s: Seq<u64>) -> bool {
    forall|i: int, j: int| 0 <= i < j < s.len() ==> s[i] != s[j]
}

impl ProposalModel {
    /// Well-formedness of a stored proposal: the batch is non-empty, payees
    /// and amounts pair up positionally, the approval count agrees with the
    /// approver list, and no approver is recorded twice.
    pub open spec fn wf(self) -> bool {
        &&& self.employees.len() >= 1
        &&& self.employees.len() == self.amounts.len()
        &&& self.approvals as int == self.approvers.len()
        &&& distinct(self.approvers)
    }

    /// The model of a freshly created proposal: no approvals, not executed.
    pub open spec fn fresh(id: u32, proposer: u64, employees: Seq<u64>, amounts: Seq<i128>) -> ProposalModel {
        ProposalModel {
            proposal_id: id,
            proposer: proposer,
            employees: employees,
            amounts: amounts,
            approvals: 0,
            approvers: Seq::<u64>::empty(),
            executed: false,
        }
    }

    /// The model of `self` after one more distinct approval.
    pub open spec fn with_approval(self, approver: u64) -> ProposalModel {
        ProposalModel {
            approvals: (self.approvals + 1) as u32,
            approvers: self.approvers.push(approver),
            ..self
        }
    }

    /// The model of `self` once disbursed: terminal, nothing else changes.
    pub open spec fn as_executed(self) -> ProposalModel {
        ProposalModel { executed: true, ..self }
    }
}

/// One stored payroll proposal. Identities are opaque integer handles
/// assigned by the host that embeds the registry.
#[derive(Debug, PartialEq, Eq)]
pub struct PayrollProposal {
    pub proposal_id: u32,
    pub proposer: u64,
    pub employees: Vec<u64>,
    pub amounts: Vec<i128>,
    pub approvals: u32,
    pub approvers: Vec<u64>,
    pub executed: bool,
}

impl View for PayrollProposal {
    type V = ProposalModel;

    open spec fn view(&self) -> ProposalModel {
        ProposalModel {
            proposal_id: self.proposal_id,
            proposer: self.proposer,
            employees: self.employees@,
            amounts: self.amounts@,
            approvals: self.approvals,
            approvers: self.approvers@,
            executed: self.executed,
        }
    }
}

/// An exact copy of a vector of identity handles.
fn clone_handles(v: &Vec<u64>) -> (r: Vec<u64>)
    ensures
        r@ == v@,
{
    let r = v.clone();
    proof {
        assert(r@ =~= v@);
    }
    r
}

/// An exact copy of a vector of amounts.
fn clone_amounts(v: &Vec<i128>) -> (r: Vec<i128>)
    ensures
        r@ == v@,
{
    let r = v.clone();
    proof {
        assert(r@ =~= v@);
    }
    r
}

impl Clone for PayrollProposal {
    /// A copy of the record with the same model.
    fn clone(&self) -> (r: Self)
        ensures
            r@ == self@,
    {
        let r = PayrollProposal {
            proposal_id: self.proposal_id,
            proposer: self.proposer,
            employees: clone_handles(&self.employees),
            amounts: clone_amounts(&self.amounts),
            approvals: self.approvals,
            approvers: clone_handles(&self.approvers),
            executed: self.executed,
        };
        proof {
            assert(r@ =~= self@);
        }
        r
    }
}

/// True exactly when `x` occurs in `v`.
pub(crate) fn contains_handle(v: &Vec<u64>, x: u64) -> (r: bool)
    ensures
        r == v@.contains(x),
{
    let mut i: usize = 0;
    while i < v.len()
        invariant
            i <= v@.len(),
            forall|k: int| 0 <= k < i ==> v@[k] != x,
        decreases v@.len() - i,
    {
        if v[i] == x {
            return true;
        }
        i = i + 1;
    }
    false
}

/// True exactly when no identity occurs twice in `v`.
pub(crate) fn distinct_handles(v: &Vec<u64>) -> (r: bool)
    ensures
        r == distinct(v@),
{
    let mut i: usize = 0;
    while i < v.len()
        invariant
            i <= v@.len(),
            forall|a: int, b: int| 0 <= a < b < i ==> v@[a] != v@[b],
        decreases v@.len() - i,
    {
        let mut j: usize = 0;
        while j < i
            invariant
                j <= i,
                i < v@.len(),
                forall|a: int, b: int| 0 <= a < b < i ==> v@[a] != v@[b],
                forall|a: int| 0 <= a < j ==> v@[a] != v@[i as int],
            decreases i - j,
        {
            if v[j] == v[i] {
                proof {
                    assert(v@[j as int] == v@[i as int]);
                    assert(!distinct(v@));
                }
                return false;
            }
            j = j + 1;
        }
        i = i + 1;
    }
    true
}

/// Appending an identity that is not yet present keeps a list duplicate-free.
pub proof fn lemma_distinct_push(s: Seq<u64>, x: u64)
    requires
        distinct(s),
        !s.contains(x),
    ensures
        distinct(s.push(x)),
{
    assert forall|i: int, j: int| 0 <= i < j < s.push(x).len() implies s.push(x)[i] != s.push(x)[j] by {
        if j == s.len() {
            assert(s.push(x)[i] == s[i]);
            if s[i] == x {
                assert(s.contains(x));
            }
        } else {
            assert(s.push(x)[i] == s[i]);
            assert(s.push(x)[j] == s[j]);
        }
    }
}

} // verus!
