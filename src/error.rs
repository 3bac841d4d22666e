use vstd::prelude::*;

use crate::status::TransactionProposalStatus;

verus! {

/// Why an attached payment was refused.
#[derive(Debug, Clone, PartialEq, Eq)]
pub enum PaymentError {
    /// Exactly one coin was sent, but not of the required denomination.
    MissingDenom(String),
    /// Coins of more than one denomination were sent.
    MultipleDenoms,
    /// No coin, or a coin of amount zero, was sent.
    NoFunds,
    /// Coins were sent to an operation that accepts none.
    NonPayable,
}

/// Every way in which an operation of the engine can fail. A failed operation
/// leaves the whole state unchanged.
#[derive(Debug, Clone, PartialEq, Eq)]
pub enum CourtContractError {
    /// The attached payment is wrong, missing or superfluous.
    PaymentError(PaymentError),
    /// The caller is not the administrator.
    Unauthorized,
    /// The proposal with this id has not reached a terminal status.
    ProposalNotFinalized(u32),
    /// No proposal has this id.
    ProposalNotFound(u32),
    /// The participant has no staked votes.
    NoStakedVotes,
    /// Votes are still tied to proposals.
    VotesActive,
    /// The participant already voted this way with their whole stake.
    AlreadyVoted,
    /// The proposal is not in the status that the operation needs.
    UnexpectedProposalStatus {
        expected: TransactionProposalStatus,
        actual: TransactionProposalStatus,
    },
    /// A proposal must bundle at least one action.
    EmptyProposal,
    /// The requested voting period is longer than the config allows.
    ProposalLivesTooLong,
    /// The proposer's stake is below the proposal threshold.
    InsufficientVotesForProposal,
    /// New proposals are disabled.
    NewProposalsNotAllowed,
    /// A mint would let percentage arithmetic on the supply overflow.
    TooManyVotesToMint,
    /// The change would leave governance with no way to act again.
    WouldLockupContract,
    /// Counted votes would exceed the token supply.
    VotesExceedSupply,
    /// A counter or timestamp would leave its integer range.
    Overflow,
}

} // verus!
