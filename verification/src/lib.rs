//! A quorum-gated batch-disbursement registry.
//!
//! A proposer submits a payroll batch (payees and amounts), independent
//! approvers cast one vote each, and once a quorum of distinct approvals is
//! reached, any caller may trigger a one-time, all-or-nothing disbursement.
//! The registry here is the verified core: identity proofs, durable storage,
//! event delivery and the actual movement of funds are left to the host that
//! embeds it, which hands the core plain values and carries out the transfer
//! instructions the core returns.
//!
//! Identities (proposer, payees, approvers, tokens) are opaque integer
//! handles assigned by the host; the core only ever compares them.

pub mod contract;
pub mod laws;
pub mod proposal;

pub use contract::DataKey;
pub use contract::REQUIRED_APPROVALS;
pub use contract::Transfer;
pub use contract::TreasuryContract;
pub use proposal::PayrollProposal;
pub use proposal::TreasuryError;
