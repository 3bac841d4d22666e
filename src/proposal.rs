use vstd::prelude::*;

use crate::config::CourtAppConfig;
use crate::status::{TransactionProposalExecutionStatus, TransactionProposalStatus};

verus! {

/// The stored record of a proposal: who made it, its three tallies, whether it
/// was executed, and when voting closes (milliseconds).
#[derive(Debug, Clone, PartialEq, Eq)]
pub struct TransactionProposalInfo {
    pub proposer: String,
    pub votes_for: u128,
    pub votes_against: u128,
    pub votes_abstain: u128,
    pub execution_status: TransactionProposalExecutionStatus,
    pub expiry_timestamp_ms: u64,
}

/// All votes counted on the proposal, abstentions included.
pub open spec fn total_votes(p: TransactionProposalInfo) -> int {
    p.votes_for + p.votes_against + p.votes_abstain
}

/// Turnout as a whole percentage of the supply, truncated.
pub open spec fn turnout_percent(p: TransactionProposalInfo, token_supply: int) -> int {
    total_votes(p) * 100 / token_supply
}

/// Share of approving votes among the non-abstaining ones, as a truncated whole
/// percentage; zero when nobody approved or opposed.
pub open spec fn pass_percent(p: TransactionProposalInfo) -> int {
    if p.votes_for + p.votes_against == 0 {
        0
    } else {
        p.votes_for * 100 / (p.votes_for + p.votes_against)
    }
}

pub open spec fn thresholds_met(
    p: TransactionProposalInfo,
    token_supply: int,
    config: CourtAppConfig,
) -> bool {
    &&& turnout_percent(p, token_supply) >= config.minimum_vote_turnout_percent
    &&& pass_percent(p) >= config.minimum_vote_pass_percent
}

/// The last millisecond at which a passed proposal may still be executed.
pub open spec fn execution_deadline(p: TransactionProposalInfo, config: CourtAppConfig) -> int {
    p.expiry_timestamp_ms + config.execution_expiry_time_seconds * 1000
}

/// The status of a proposal at a given time, under a given supply and config.
pub open spec fn proposal_status(
    p: TransactionProposalInfo,
    current_timestamp_ms: u64,
    token_supply: u128,
    config: CourtAppConfig,
) -> TransactionProposalStatus {
    if p.execution_status is Executed {
        TransactionProposalStatus::Executed
    } else if p.expiry_timestamp_ms < config.last_config_change_timestamp_ms {
        TransactionProposalStatus::Rejected
    } else if current_timestamp_ms < p.expiry_timestamp_ms {
        if thresholds_met(p, token_supply as int, config) {
            TransactionProposalStatus::Passed
        } else {
            TransactionProposalStatus::Pending
        }
    } else if !thresholds_met(p, token_supply as int, config) {
        TransactionProposalStatus::Rejected
    } else if current_timestamp_ms <= execution_deadline(p, config) {
        TransactionProposalStatus::Passed
    } else {
        TransactionProposalStatus::ExecutionExpired
    }
}

/// What the percentage arithmetic of `status` needs: a non-zero supply that can
/// be multiplied by 100, and tallies that do not exceed it.
pub open spec fn tallies_within_supply(p: TransactionProposalInfo, token_supply: u128) -> bool {
    &&& token_supply > 0
    &&& token_supply * 100 <= u128::MAX
    &&& total_votes(p) <= token_supply
}

impl TransactionProposalInfo {
    /// A new proposal whose only vote is its proposer's approval.
    pub fn new(proposer: String, proposer_votes: u128, expiry_timestamp_ms: u64) -> (r: Self)
        ensures
            r == (TransactionProposalInfo {
                proposer,
                votes_for: proposer_votes,
                votes_against: 0,
                votes_abstain: 0,
                execution_status: TransactionProposalExecutionStatus::NotExecuted,
                expiry_timestamp_ms,
            }),
    {
        TransactionProposalInfo {
            proposer,
            votes_for: proposer_votes,
            votes_against: 0,
            votes_abstain: 0,
            execution_status: TransactionProposalExecutionStatus::NotExecuted,
            expiry_timestamp_ms,
        }
    }

    pub fn execution_status(&self) -> (r: TransactionProposalExecutionStatus)
        ensures
            r == self.execution_status,
    {
        self.execution_status
    }

    pub fn set_execution_status(&mut self, value: TransactionProposalExecutionStatus)
        ensures
            *final(self) == (TransactionProposalInfo { execution_status: value, ..*old(self) }),
    {
        self.execution_status = value;
    }

    /// Whether turnout and pass ratio both reach the config's minimums.
    fn thresholds_met(&self, token_supply: u128, config: &CourtAppConfig) -> (r: bool)
        requires
            tallies_within_supply(*self, token_supply),
        ensures
            r == thresholds_met(*self, token_supply as int, *config),
    {
        let total = self.votes_for + self.votes_against + self.votes_abstain;
        assert(total * 100 <= token_supply * 100) by (nonlinear_arith)
            requires
                total <= token_supply,
        ;
        let turnout = total * 100 / token_supply;
        let decided = self.votes_for + self.votes_against;
        let pass = if decided == 0 {
            0
        } else {
            assert(self.votes_for * 100 <= token_supply * 100) by (nonlinear_arith)
                requires
                    self.votes_for <= token_supply,
            ;
            self.votes_for * 100 / decided
        };
        turnout >= config.minimum_vote_turnout_percent as u128 && pass
            >= config.minimum_vote_pass_percent as u128
    }

    /// The proposal's status, recomputed from its stored fields, the time, the
    /// token supply and the config; nothing is read or written besides.
    pub fn status(
        &self,
        current_timestamp_ms: u64,
        token_supply: u128,
        app_config: &CourtAppConfig,
    ) -> (r: TransactionProposalStatus)
        requires
            tallies_within_supply(*self, token_supply),
        ensures
            r == proposal_status(*self, current_timestamp_ms, token_supply, *app_config),
    {
        if let Some(status) = self.execution_status.as_proposal_status() {
            status
        } else if self.expiry_timestamp_ms < app_config.last_config_change_timestamp_ms {
            TransactionProposalStatus::Rejected
        } else if current_timestamp_ms < self.expiry_timestamp_ms {
            if self.thresholds_met(token_supply, app_config) {
                TransactionProposalStatus::Passed
            } else {
                TransactionProposalStatus::Pending
            }
        } else if !self.thresholds_met(token_supply, app_config) {
            TransactionProposalStatus::Rejected
        } else if current_timestamp_ms > self.expiry_timestamp_ms.saturating_add(
            (app_config.execution_expiry_time_seconds as u64) * 1000,
        ) {
            TransactionProposalStatus::ExecutionExpired
        } else {
            TransactionProposalStatus::Passed
        }
    }
}

} // verus!
