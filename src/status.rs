use vstd::prelude::*;

use crate::error::CourtContractError;

verus! {

/// Lifecycle status of a transaction proposal. It is never stored: it is
/// derived from the proposal record, the time, the token supply and the config.
#[derive(Debug, Clone, Copy, PartialEq, Eq, Structural)]
pub enum TransactionProposalStatus {
    /// Votes are still being collected
    Pending,
    /// The proposed transaction will not be executed
    Rejected,
    /// The proposed transaction will be executed, but hasn't yet
    Passed,
    /// The proposal passed and the transaction has executed
    Executed,
    /// The proposal passed but couldn't be executed before the execution window closed
    ExecutionExpired,
}

/// The only persisted piece of a proposal's lifecycle.
#[derive(Debug, Clone, Copy, PartialEq, Eq, Structural)]
pub enum TransactionProposalExecutionStatus {
    /// Proposal has not been executed
    NotExecuted,
    /// Proposal has been been executed
    Executed,
}

/// The terminal statuses: no vote can change them any more.
pub open spec fn spec_is_finalized(s: TransactionProposalStatus) -> bool {
    s is Rejected || s is Executed || s is ExecutionExpired
}

impl TransactionProposalStatus {
    /// Checks if the proposal is `Rejected`, `Executed` or `ExecutionExpired`.
    pub fn is_finalized(&self) -> (r: bool)
        ensures
            r == spec_is_finalized(*self),
    {
        match self {
            TransactionProposalStatus::Rejected
            | TransactionProposalStatus::Executed
            | TransactionProposalStatus::ExecutionExpired => true,
            _ => false,
        }
    }

    /// Succeeds exactly when `self` is the status `other` that the operation needs.
    pub fn enforce_status(&self, other: Self) -> (r: Result<(), CourtContractError>)
        ensures
            r is Ok <==> *self == other,
            r is Err ==> r == Err::<(), CourtContractError>(
                CourtContractError::UnexpectedProposalStatus { expected: other, actual: *self },
            ),
    {
        if *self == other {
            Ok(())
        } else {
            Err(CourtContractError::UnexpectedProposalStatus { expected: other, actual: *self })
        }
    }

    /// The lower-case name of the status, as shown to users.
    pub fn as_str(&self) -> (r: &'static str)
        ensures
            r@ == status_name(*self),
    {
        match self {
            TransactionProposalStatus::Pending => "pending",
            TransactionProposalStatus::Rejected => "rejected",
            TransactionProposalStatus::Passed => "passed",
            TransactionProposalStatus::Executed => "executed",
            TransactionProposalStatus::ExecutionExpired => "execution_expired",
        }
    }
}

pub open spec fn status_name(s: TransactionProposalStatus) -> Seq<char> {
    match s {
        TransactionProposalStatus::Pending => "pending"@,
        TransactionProposalStatus::Rejected => "rejected"@,
        TransactionProposalStatus::Passed => "passed"@,
        TransactionProposalStatus::Executed => "executed"@,
        TransactionProposalStatus::ExecutionExpired => "execution_expired"@,
    }
}

impl TransactionProposalExecutionStatus {
    /// The status that the execution flag alone decides, if any.
    pub fn as_proposal_status(&self) -> (r: Option<TransactionProposalStatus>)
        ensures
            r == (match *self {
                TransactionProposalExecutionStatus::NotExecuted => None,
                TransactionProposalExecutionStatus::Executed => Some(
                    TransactionProposalStatus::Executed,
                ),
            }),
    {
        match self {
            TransactionProposalExecutionStatus::NotExecuted => None,
            TransactionProposalExecutionStatus::Executed => Some(
                TransactionProposalStatus::Executed,
            ),
        }
    }
}

} // verus!
