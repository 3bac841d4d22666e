use vstd::prelude::*;

use crate::config::CourtAppConfig;
use crate::court::{tallies_match, CourtModel};
use crate::proposal::{proposal_status, total_votes, TransactionProposalInfo};
use crate::status::{spec_is_finalized, TransactionProposalStatus};
use crate::user::{lemma_weight_is_direction_total, weight_sum, VoteEntry};

verus! {

/// When a proposal's tallies match its vote ledger, the three tallies together
/// are the sum of every participant's counted weight on it.
pub proof fn law_tallies_sum_to_vote_weights(p: TransactionProposalInfo, votes: Seq<VoteEntry>)
    requires
        tallies_match(p, votes),
    ensures
        total_votes(p) == weight_sum(votes),
{
    lemma_weight_is_direction_total(votes);
}

/// The status depends on nothing but the proposal's stored fields, the time,
/// the supply and the config: equal inputs give equal statuses, so asking
/// twice (through `TransactionProposalInfo::status`, which takes the proposal
/// by shared reference) gives the same answer.
pub proof fn law_status_is_determined_by_its_inputs(
    p: TransactionProposalInfo,
    q: TransactionProposalInfo,
    now_ms: u64,
    token_supply: u128,
    config: CourtAppConfig,
)
    requires
        p.votes_for == q.votes_for,
        p.votes_against == q.votes_against,
        p.votes_abstain == q.votes_abstain,
        p.execution_status == q.execution_status,
        p.expiry_timestamp_ms == q.expiry_timestamp_ms,
    ensures
        proposal_status(p, now_ms, token_supply, config) == proposal_status(
            q,
            now_ms,
            token_supply,
            config,
        ),
{
}

/// An executed proposal reports `Executed` at every time, supply and config,
/// so it is never `Passed` again and cannot be executed a second time.
pub proof fn law_executed_is_final(
    p: TransactionProposalInfo,
    now_ms: u64,
    token_supply: u128,
    config: CourtAppConfig,
)
    requires
        p.execution_status is Executed,
    ensures
        proposal_status(p, now_ms, token_supply, config) == TransactionProposalStatus::Executed,
        spec_is_finalized(proposal_status(p, now_ms, token_supply, config)),
{
}

/// A proposal that expired before the config last changed is rejected for
/// good, whatever its votes, unless it was already executed.
pub proof fn law_config_change_rejects_older_proposals(
    p: TransactionProposalInfo,
    now_ms: u64,
    token_supply: u128,
    config: CourtAppConfig,
)
    requires
        p.execution_status is NotExecuted,
        p.expiry_timestamp_ms < config.last_config_change_timestamp_ms,
    ensures
        proposal_status(p, now_ms, token_supply, config) == TransactionProposalStatus::Rejected,
{
}

/// Once the execution window of a passed proposal has closed without
/// execution, the proposal stays in a terminal status at every later time.
pub proof fn law_execution_expiry_is_terminal(
    p: TransactionProposalInfo,
    now_ms: u64,
    later_ms: u64,
    token_supply: u128,
    config: CourtAppConfig,
)
    requires
        proposal_status(p, now_ms, token_supply, config) == TransactionProposalStatus::ExecutionExpired,
        now_ms <= later_ms,
    ensures
        proposal_status(p, later_ms, token_supply, config) == TransactionProposalStatus::ExecutionExpired,
{
}

/// A participant's vote weight in the model of the engine is the weight that
/// its vote ledger holds for them.
pub proof fn law_active_vote_has_weight(m: CourtModel, id: int, u: Seq<char>)
    requires
        m.wf(),
        0 <= id < m.proposals.len(),
    ensures
        m.has_active_vote(id, u) <==> m.vote_of(id, u).active_votes > 0,
{
    let votes = m.proposal_votes[id]@;
    assert(crate::court::proposal_wf(m.proposals[id], votes, m.total_supply));
    if m.has_active_vote(id, u) {
        let i = choose|i: int| 0 <= i < votes.len() && votes[i].user@ == u;
        crate::user::lemma_vote_at(votes, i);
    }
}

/// A participant with a live vote has a stake of at least that vote's weight,
/// which is never zero: a stake cannot reach zero while the active-vote index
/// holds an entry for its participant.
pub proof fn law_live_vote_keeps_stake(m: CourtModel, id: int, u: Seq<char>)
    requires
        m.wf(),
        0 <= id < m.proposals.len(),
        m.has_active_vote(id, u),
    ensures
        0 < m.vote_of(id, u).active_votes <= m.stake_of(u),
{
    law_active_vote_has_weight(m, id, u);
}

} // verus!
