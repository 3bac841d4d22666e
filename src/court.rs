use vstd::prelude::*;

use crate::config::CourtAppConfig;
use crate::error::CourtContractError;
use crate::payment::{enforce_single_payment, enforce_unfunded, BorshableCoin};
use crate::proposal::{proposal_status, tallies_within_supply, TransactionProposalInfo};
use crate::proposed_msg::{
    lemma_minted_amount_monotone, lemma_minted_amount_nonneg, minted_amount, ProposedCourtMsg,
};
use crate::status::{TransactionProposalExecutionStatus, TransactionProposalStatus};
use crate::user::{
    direction_sum, info_contribution, has_stake_entry, has_vote_entry, lemma_contribution_bounded,
    lemma_direction_sum_remove, lemma_direction_sum_update,
    lemma_stake_at, lemma_stake_push, lemma_stake_update, lemma_vote_at, lemma_vote_push,
    lemma_vote_remove, lemma_vote_update, stake_in, stake_keys_unique, vote_in, vote_keys_unique,
    CourtUserStats, CourtUserVoteInfo, CourtUserVoteStatus, StakeEntry, VoteEntry,
};

verus! {

/// The whole state of the engine: config, supply, stake ledger, proposal store
/// and, per proposal, the vote ledger of its participants with a live vote.
pub struct CourtState {
    config: CourtAppConfig,
    contract_address: String,
    votes_denom: String,
    total_supply: u128,
    stakes: Vec<StakeEntry>,
    proposals: Vec<TransactionProposalInfo>,
    proposal_msgs: Vec<Vec<ProposedCourtMsg>>,
    proposal_votes: Vec<Vec<VoteEntry>>,
}

/// The mathematical content of a `CourtState`.
pub struct CourtModel {
    pub config: CourtAppConfig,
    pub contract_address: Seq<char>,
    pub votes_denom: Seq<char>,
    pub total_supply: u128,
    pub stakes: Seq<StakeEntry>,
    pub proposals: Seq<TransactionProposalInfo>,
    pub proposal_msgs: Seq<Vec<ProposedCourtMsg>>,
    pub proposal_votes: Seq<Vec<VoteEntry>>,
}

/// A supply for which percentages, and permyriads, of any amount up to it can
/// be computed in 128 bits.
pub open spec fn supply_is_safe(supply: int) -> bool {
    supply * 10000 <= u128::MAX
}

/// The invariant of one proposal and its vote ledger: one entry per participant,
/// each with a non-zero weight, and each tally at least the weight of the
/// entries that vote its way.
pub open spec fn proposal_wf(p: TransactionProposalInfo, votes: Seq<VoteEntry>, supply: u128) -> bool {
    &&& vote_keys_unique(votes)
    &&& weights_positive(votes)
    &&& direction_sum(votes, CourtUserVoteStatus::Approve) <= p.votes_for
    &&& direction_sum(votes, CourtUserVoteStatus::Oppose) <= p.votes_against
    &&& direction_sum(votes, CourtUserVoteStatus::Abstain) <= p.votes_abstain
    &&& tallies_within_supply(p, supply)
}

/// Every entry of a vote ledger carries a non-zero weight.
pub open spec fn weights_positive(votes: Seq<VoteEntry>) -> bool {
    forall|i: int| 0 <= i < votes.len() ==> #[trigger] votes[i].info.active_votes > 0
}

/// The tallies of a proposal are exactly the weights of its vote ledger.
pub open spec fn tallies_match(p: TransactionProposalInfo, votes: Seq<VoteEntry>) -> bool {
    &&& direction_sum(votes, CourtUserVoteStatus::Approve) == p.votes_for
    &&& direction_sum(votes, CourtUserVoteStatus::Oppose) == p.votes_against
    &&& direction_sum(votes, CourtUserVoteStatus::Abstain) == p.votes_abstain
}

impl CourtModel {
    pub open spec fn wf(self) -> bool {
        &&& self.ledgers_wf()
        &&& self.votes_within_stakes()
    }

    /// The invariant of the stores taken one by one.
    pub open spec fn ledgers_wf(self) -> bool {
        &&& self.proposals.len() == self.proposal_msgs.len()
        &&& self.proposals.len() == self.proposal_votes.len()
        &&& self.proposals.len() <= u32::MAX
        &&& supply_is_safe(self.total_supply as int)
        &&& stake_keys_unique(self.stakes)
        &&& forall|p: int|
            0 <= p < self.proposals.len() ==> proposal_wf(
                #[trigger] self.proposals[p],
                self.proposal_votes[p]@,
                self.total_supply,
            )
    }

    /// No live vote weighs more than its participant's current stake.
    pub open spec fn votes_within_stakes(self) -> bool {
        forall|p: int, u: Seq<char>|
            0 <= p < self.proposals.len() && #[trigger] self.has_active_vote(p, u)
                ==> self.vote_of(p, u).active_votes <= self.stake_of(u)
    }

    /// The participant's staked amount.
    pub open spec fn stake_of(self, u: Seq<char>) -> u128 {
        stake_in(self.stakes, u)
    }

    /// Whether the active-vote index holds the pair (participant, proposal).
    pub open spec fn has_active_vote(self, p: int, u: Seq<char>) -> bool {
        has_vote_entry(self.proposal_votes[p]@, u)
    }

    /// The participant's vote record on the proposal.
    pub open spec fn vote_of(self, p: int, u: Seq<char>) -> CourtUserVoteInfo {
        vote_in(self.proposal_votes[p]@, u)
    }

    /// Whether the active-vote index holds any entry for the participant.
    pub open spec fn user_has_active_votes(self, u: Seq<char>) -> bool {
        exists|p: int| 0 <= p < self.proposals.len() && #[trigger] self.has_active_vote(p, u)
    }

    /// Whether the active-vote index holds any entry at all.
    pub open spec fn any_active_votes(self) -> bool {
        exists|p: int| 0 <= p < self.proposals.len() && #[trigger] self.proposal_votes[p]@.len() > 0
    }

    /// The status of a proposal at the given time.
    pub open spec fn status_of(self, p: int, now_ms: u64) -> TransactionProposalStatus {
        proposal_status(self.proposals[p], now_ms, self.total_supply, self.config)
    }
}

/// Live votes stay within stakes when no vote changes and no stake shrinks.
pub proof fn lemma_votes_within_stakes_kept(m: CourtModel, f: CourtModel)
    requires
        m.votes_within_stakes(),
        f.proposals.len() == m.proposals.len(),
        f.proposal_votes == m.proposal_votes,
        forall|u: Seq<char>| #[trigger] f.stake_of(u) >= m.stake_of(u),
    ensures
        f.votes_within_stakes(),
{
    assert forall|p: int, u: Seq<char>|
        0 <= p < f.proposals.len() && #[trigger] f.has_active_vote(p, u) implies f.vote_of(
        p,
        u,
    ).active_votes <= f.stake_of(u) by {
        assert(m.has_active_vote(p, u));
        assert(f.stake_of(u) >= m.stake_of(u));
    }
}

/// Live votes stay within stakes when one participant's vote on one proposal
/// is replaced by one within their stake, or removed, and nothing else changes.
pub proof fn lemma_votes_within_stakes_revote(
    m: CourtModel,
    f: CourtModel,
    id: int,
    u: Seq<char>,
)
    requires
        m.votes_within_stakes(),
        f.proposals.len() == m.proposals.len(),
        f.proposal_votes.len() == m.proposal_votes.len(),
        f.stakes == m.stakes,
        0 <= id < m.proposals.len(),
        forall|p: int| 0 <= p < m.proposals.len() && p != id ==> #[trigger] f.proposal_votes[p] == m.proposal_votes[p],
        f.has_active_vote(id, u) ==> f.vote_of(id, u).active_votes <= f.stake_of(u),
        forall|v: Seq<char>|
            v != u ==> #[trigger] f.vote_of(id, v) == m.vote_of(id, v) && f.has_active_vote(id, v)
                == m.has_active_vote(id, v),
    ensures
        f.votes_within_stakes(),
{
    assert forall|p: int, v: Seq<char>|
        0 <= p < f.proposals.len() && #[trigger] f.has_active_vote(p, v) implies f.vote_of(
        p,
        v,
    ).active_votes <= f.stake_of(v) by {
        if p != id {
            assert(f.proposal_votes[p] == m.proposal_votes[p]);
            assert(m.has_active_vote(p, v));
        } else if v != u {
            assert(m.has_active_vote(p, v));
        }
    }
}

impl View for CourtState {
    type V = CourtModel;

    closed spec fn view(&self) -> CourtModel {
        CourtModel {
            config: self.config,
            contract_address: self.contract_address@,
            votes_denom: self.votes_denom@,
            total_supply: self.total_supply,
            stakes: self.stakes@,
            proposals: self.proposals@,
            proposal_msgs: self.proposal_msgs@,
            proposal_votes: self.proposal_votes@,
        }
    }
}

/// Whether `funds` is a single non-zero coin of `denom`.
pub open spec fn single_payment_ok(funds: Seq<BorshableCoin>, denom: Seq<char>) -> bool {
    funds.len() == 1 && funds[0].amount > 0 && funds[0].denom@ == denom
}

/// Every participant other than `u` has the same stake in both states.
pub open spec fn stakes_agree_except(a: CourtModel, b: CourtModel, u: Seq<char>) -> bool {
    forall|v: Seq<char>| v != u ==> #[trigger] a.stake_of(v) == b.stake_of(v)
}

impl CourtState {
    /// The engine's invariant, which every operation preserves.
    pub open spec fn wf(&self) -> bool {
        self@.wf()
    }

    /// Where the stake ledger holds `user`'s entry, if anywhere.
    fn find_stake(&self, user: &String) -> (r: Option<usize>)
        ensures
            r is Some ==> r->Some_0 < self@.stakes.len() && self@.stakes[r->Some_0 as int].user@
                == user@,
            r is None ==> !has_stake_entry(self@.stakes, user@),
    {
        let mut i: usize = 0;
        while i < self.stakes.len()
            invariant
                i <= self.stakes@.len(),
                forall|j: int| 0 <= j < i ==> self.stakes@[j].user@ != user@,
            decreases self.stakes@.len() - i,
        {
            if self.stakes[i].user == *user {
                return Some(i);
            }
            i += 1;
        }
        None
    }

    /// The participant's staked amount; zero when they never staked.
    pub fn stake_of(&self, user: &String) -> (r: u128)
        requires
            self.wf(),
        ensures
            r == self@.stake_of(user@),
    {
        match self.find_stake(user) {
            Some(i) => {
                proof {
                    lemma_stake_at(self@.stakes, i as int);
                }
                self.stakes[i].stats.staked_votes
            },
            None => 0,
        }
    }

    /// Sets the participant's stake, creating the ledger entry on first use.
    fn set_stake(&mut self, user: String, amount: u128)
        requires
            old(self)@.ledgers_wf(),
        ensures
            final(self)@.ledgers_wf(),
            final(self)@ == (CourtModel { stakes: final(self)@.stakes, ..old(self)@ }),
            final(self)@.stake_of(user@) == amount,
            stakes_agree_except(final(self)@, old(self)@, user@),
    {
        let entry = StakeEntry { user: user, stats: CourtUserStats { staked_votes: amount } };
        match self.find_stake(&entry.user) {
            Some(i) => {
                proof {
                    lemma_stake_update(self@.stakes, i as int, entry);
                }
                self.stakes.set(i, entry);
            },
            None => {
                proof {
                    lemma_stake_push(self@.stakes, entry);
                }
                self.stakes.push(entry);
            },
        }
    }
}

impl CourtState {
    /// Sets up governance: the config with proposals enabled and
    /// `now_ms` as its last change, and an initial supply of `shares_mint_amount`.
    pub fn new(
        funds: &Vec<BorshableCoin>,
        admin: String,
        contract_address: String,
        votes_denom: String,
        shares_mint_amount: u128,
        minimum_vote_proposal_percent: u8,
        minimum_vote_turnout_percent: u8,
        minimum_vote_pass_percent: u8,
        max_proposal_expiry_time_seconds: u32,
        execution_expiry_time_seconds: u32,
        now_ms: u64,
    ) -> (r: Result<CourtState, CourtContractError>)
        ensures
            r is Ok <==> (funds@.len() == 0 && supply_is_safe(shares_mint_amount as int)),
            funds@.len() > 0 ==> r matches Err(CourtContractError::PaymentError(_)),
            funds@.len() == 0 && !supply_is_safe(shares_mint_amount as int) ==> r
                == Err::<CourtState, CourtContractError>(CourtContractError::TooManyVotesToMint),
            r is Ok ==> ({
                let m = r->Ok_0@;
                &&& r->Ok_0.wf()
                &&& m.config == (CourtAppConfig {
                    allow_new_proposals: true,
                    minimum_vote_proposal_percent,
                    minimum_vote_turnout_percent,
                    minimum_vote_pass_percent,
                    max_proposal_expiry_time_seconds,
                    execution_expiry_time_seconds,
                    last_config_change_timestamp_ms: now_ms,
                    admin,
                })
                &&& m.contract_address == contract_address@
                &&& m.votes_denom == votes_denom@
                &&& m.total_supply == shares_mint_amount
                &&& m.stakes.len() == 0
                &&& m.proposals.len() == 0
            }),
    {
        if let Err(e) = enforce_unfunded(funds) {
            return Err(CourtContractError::PaymentError(e));
        }
        if shares_mint_amount > u128::MAX / 10000 {
            return Err(CourtContractError::TooManyVotesToMint);
        }
        let config = CourtAppConfig {
            allow_new_proposals: true,
            minimum_vote_proposal_percent,
            minimum_vote_turnout_percent,
            minimum_vote_pass_percent,
            max_proposal_expiry_time_seconds,
            execution_expiry_time_seconds,
            last_config_change_timestamp_ms: now_ms,
            admin,
        };
        let state = CourtState {
            config,
            contract_address,
            votes_denom,
            total_supply: shares_mint_amount,
            stakes: Vec::new(),
            proposals: Vec::new(),
            proposal_msgs: Vec::new(),
            proposal_votes: Vec::new(),
        };
        Ok(state)
    }

    pub fn config(&self) -> (r: &CourtAppConfig)
        ensures
            *r == self@.config,
    {
        &self.config
    }

    pub fn votes_denom(&self) -> (r: &String)
        ensures
            r@ == self@.votes_denom,
    {
        &self.votes_denom
    }

    pub fn contract_address(&self) -> (r: &String)
        ensures
            r@ == self@.contract_address,
    {
        &self.contract_address
    }

    pub fn total_supply(&self) -> (r: u128)
        ensures
            r == self@.total_supply,
    {
        self.total_supply
    }

    /// The number of proposals ever made; ids run from zero to this, exclusive.
    pub fn proposal_amount(&self) -> (r: u32)
        requires
            self.wf(),
        ensures
            r == self@.proposals.len(),
    {
        self.proposals.len() as u32
    }

    /// Where one proposal's vote ledger holds `user`'s entry, if anywhere.
    fn find_vote(votes: &Vec<VoteEntry>, user: &String) -> (r: Option<usize>)
        ensures
            r is Some ==> r->Some_0 < votes@.len() && votes@[r->Some_0 as int].user@ == user@,
            r is None ==> !has_vote_entry(votes@, user@),
    {
        let mut i: usize = 0;
        while i < votes.len()
            invariant
                i <= votes@.len(),
                forall|j: int| 0 <= j < i ==> votes@[j].user@ != user@,
            decreases votes@.len() - i,
        {
            if votes[i].user == *user {
                return Some(i);
            }
            i += 1;
        }
        None
    }

    /// Whether the active-vote index holds any entry for the participant.
    pub fn user_has_active_votes(&self, user: &String) -> (r: bool)
        requires
            self.wf(),
        ensures
            r == self@.user_has_active_votes(user@),
    {
        let mut p: usize = 0;
        while p < self.proposal_votes.len()
            invariant
                self.wf(),
                p <= self@.proposals.len(),
                forall|q: int| 0 <= q < p ==> !#[trigger] self@.has_active_vote(q, user@),
            decreases self@.proposals.len() - p,
        {
            if Self::find_vote(&self.proposal_votes[p], user).is_some() {
                assert(self@.has_active_vote(p as int, user@));
                return true;
            }
            p += 1;
        }
        false
    }

    /// Whether the active-vote index holds any entry at all.
    pub fn any_active_votes(&self) -> (r: bool)
        requires
            self.wf(),
        ensures
            r == self@.any_active_votes(),
    {
        let mut p: usize = 0;
        while p < self.proposal_votes.len()
            invariant
                self.wf(),
                p <= self@.proposals.len(),
                forall|q: int| 0 <= q < p ==> #[trigger] self@.proposal_votes[q]@.len() == 0,
            decreases self@.proposals.len() - p,
        {
            if self.proposal_votes[p].len() > 0 {
                return true;
            }
            p += 1;
        }
        false
    }

    /// Stakes the single coin of the governance token attached as `funds` for
    /// `sender`, and returns their new total stake. Votes already cast keep
    /// their weight until the participant votes again.
    pub fn stake(&mut self, sender: String, funds: &Vec<BorshableCoin>) -> (r: Result<
        u128,
        CourtContractError,
    >)
        requires
            old(self).wf(),
        ensures
            final(self).wf(),
            r is Err ==> *final(self) == *old(self),
            !single_payment_ok(funds@, old(self)@.votes_denom) <==> r matches Err(
                CourtContractError::PaymentError(_),
            ),
            r is Ok <==> single_payment_ok(funds@, old(self)@.votes_denom) && old(self)@.stake_of(
                sender@,
            ) + funds@[0].amount <= u128::MAX,
            single_payment_ok(funds@, old(self)@.votes_denom) && r is Err ==> r == Err::<
                u128,
                CourtContractError,
            >(CourtContractError::Overflow),
            r is Ok ==> {
                &&& r->Ok_0 == old(self)@.stake_of(sender@) + funds@[0].amount
                &&& final(self)@.stake_of(sender@) == r->Ok_0
                &&& stakes_agree_except(final(self)@, old(self)@, sender@)
                &&& final(self)@ == (CourtModel { stakes: final(self)@.stakes, ..old(self)@ })
            },
    {
        let amount = match enforce_single_payment(funds, &self.votes_denom) {
            Ok(a) => a,
            Err(e) => {
                return Err(CourtContractError::PaymentError(e));
            },
        };
        let current = self.stake_of(&sender);
        if current > u128::MAX - amount {
            return Err(CourtContractError::Overflow);
        }
        let total = current + amount;
        let ghost m = self@;
        let ghost who = sender@;
        self.set_stake(sender, total);
        proof {
            let f = self@;
            assert forall|u: Seq<char>| #[trigger] f.stake_of(u) >= m.stake_of(u) by {
                if u != who {
                    assert(f.stake_of(u) == m.stake_of(u));
                }
            }
            lemma_votes_within_stakes_kept(m, f);
        }
        Ok(total)
    }

    /// Returns the sender's whole stake to them and zeroes it. Refused while
    /// the active-vote index holds any entry for the sender.
    pub fn unstake(&mut self, sender: String, funds: &Vec<BorshableCoin>) -> (r: Result<
        u128,
        CourtContractError,
    >)
        requires
            old(self).wf(),
        ensures
            final(self).wf(),
            r is Err ==> *final(self) == *old(self),
            funds@.len() > 0 <==> r matches Err(CourtContractError::PaymentError(_)),
            funds@.len() == 0 && old(self)@.user_has_active_votes(sender@) <==> r == Err::<
                u128,
                CourtContractError,
            >(CourtContractError::VotesActive),
            funds@.len() == 0 && !old(self)@.user_has_active_votes(sender@) && old(self)@.stake_of(
                sender@,
            ) == 0 <==> r == Err::<u128, CourtContractError>(CourtContractError::NoStakedVotes),
            r is Ok <==> funds@.len() == 0 && !old(self)@.user_has_active_votes(sender@)
                && old(self)@.stake_of(sender@) > 0,
            r is Ok ==> {
                &&& r->Ok_0 == old(self)@.stake_of(sender@)
                &&& final(self)@.stake_of(sender@) == 0
                &&& stakes_agree_except(final(self)@, old(self)@, sender@)
                &&& final(self)@ == (CourtModel { stakes: final(self)@.stakes, ..old(self)@ })
            },
    {
        if let Err(e) = enforce_unfunded(funds) {
            return Err(CourtContractError::PaymentError(e));
        }
        if self.user_has_active_votes(&sender) {
            return Err(CourtContractError::VotesActive);
        }
        let amount = self.stake_of(&sender);
        if amount == 0 {
            return Err(CourtContractError::NoStakedVotes);
        }
        let ghost m = self@;
        let ghost who = sender@;
        self.set_stake(sender, 0);
        proof {
            let f = self@;
            assert forall|p: int, u: Seq<char>|
                0 <= p < f.proposals.len() && #[trigger] f.has_active_vote(p, u) implies f.vote_of(
                p,
                u,
            ).active_votes <= f.stake_of(u) by {
                assert(m.has_active_vote(p, u));
                if u == who {
                    assert(m.user_has_active_votes(who));
                } else {
                    assert(f.stake_of(u) == m.stake_of(u));
                }
            }
        }
        Ok(amount)
    }
}

/// Whether a stake is a large enough share of the supply to make a proposal.
pub open spec fn stake_suffices(stake: int, supply: int, minimum_percent: int) -> bool {
    supply > 0 && stake * 100 / supply >= minimum_percent
}

/// The proposal that `propose_transaction` appends.
pub open spec fn new_proposal(
    proposer: String,
    stake: u128,
    expiry_timestamp_ms: u64,
) -> TransactionProposalInfo {
    TransactionProposalInfo {
        proposer,
        votes_for: stake,
        votes_against: 0,
        votes_abstain: 0,
        execution_status: crate::status::TransactionProposalExecutionStatus::NotExecuted,
        expiry_timestamp_ms,
    }
}

/// The vote ledger that `propose_transaction` seeds: the proposer approves
/// with their whole stake, if they have any.
pub open spec fn seeded_votes(proposer: String, stake: u128) -> Seq<VoteEntry> {
    if stake > 0 {
        seq![
            VoteEntry {
                user: proposer,
                info: CourtUserVoteInfo { active_votes: stake, vote: CourtUserVoteStatus::Approve },
            },
        ]
    } else {
        seq![]
    }
}

impl CourtState {
    /// Submits a proposal bundling `msgs`, open for votes for
    /// `expiry_time_seconds` from `now_ms`; the proposer's whole stake is
    /// counted as an approving vote. Returns the new proposal's id.
    pub fn propose_transaction(
        &mut self,
        sender: String,
        funds: &Vec<BorshableCoin>,
        msgs: Vec<ProposedCourtMsg>,
        expiry_time_seconds: u32,
        now_ms: u64,
    ) -> (r: Result<u32, CourtContractError>)
        requires
            old(self).wf(),
        ensures
            final(self).wf(),
            r is Err ==> *final(self) == *old(self),
            ({
                let m = old(self)@;
                let stake = m.stake_of(sender@);
                let expiry = now_ms + expiry_time_seconds * 1000;
                &&& funds@.len() > 0 <==> (r matches Err(CourtContractError::PaymentError(_)))
                &&& funds@.len() == 0 && msgs@.len() == 0 <==> r == Err::<u32, CourtContractError>(
                    CourtContractError::EmptyProposal,
                )
                &&& (funds@.len() == 0 && msgs@.len() > 0 && expiry_time_seconds
                    > m.config.max_proposal_expiry_time_seconds) <==> r == Err::<
                    u32,
                    CourtContractError,
                >(CourtContractError::ProposalLivesTooLong)
                &&& (funds@.len() == 0 && msgs@.len() > 0 && expiry_time_seconds
                    <= m.config.max_proposal_expiry_time_seconds
                    && !m.config.allow_new_proposals) <==> r == Err::<u32, CourtContractError>(
                    CourtContractError::NewProposalsNotAllowed,
                )
                &&& (funds@.len() == 0 && msgs@.len() > 0 && expiry_time_seconds
                    <= m.config.max_proposal_expiry_time_seconds && m.config.allow_new_proposals
                    && stake > m.total_supply) <==> r == Err::<u32, CourtContractError>(
                    CourtContractError::VotesExceedSupply,
                )
                &&& (funds@.len() == 0 && msgs@.len() > 0 && expiry_time_seconds
                    <= m.config.max_proposal_expiry_time_seconds && m.config.allow_new_proposals
                    && stake <= m.total_supply && !stake_suffices(
                    stake as int,
                    m.total_supply as int,
                    m.config.minimum_vote_proposal_percent as int,
                )) <==> r == Err::<u32, CourtContractError>(
                    CourtContractError::InsufficientVotesForProposal,
                )
                &&& r is Ok <==> (funds@.len() == 0 && msgs@.len() > 0 && expiry_time_seconds
                    <= m.config.max_proposal_expiry_time_seconds && m.config.allow_new_proposals
                    && stake <= m.total_supply && stake_suffices(
                    stake as int,
                    m.total_supply as int,
                    m.config.minimum_vote_proposal_percent as int,
                ) && expiry <= u64::MAX && m.proposals.len() < u32::MAX)
                &&& r is Ok ==> {
                    let id = m.proposals.len();
                    let f = final(self)@;
                    &&& r->Ok_0 == id
                    &&& f.proposals == m.proposals.push(new_proposal(sender, stake, expiry as u64))
                    &&& f.proposal_msgs == m.proposal_msgs.push(msgs)
                    &&& f.proposal_votes.len() == id + 1
                    &&& f.proposal_votes.take(id as int) == m.proposal_votes
                    &&& f.proposal_votes[id as int]@ == seeded_votes(sender, stake)
                    &&& tallies_match(f.proposals[id as int], f.proposal_votes[id as int]@)
                    &&& f.config == m.config && f.total_supply == m.total_supply
                    &&& f.stakes == m.stakes && f.votes_denom == m.votes_denom
                    &&& f.contract_address == m.contract_address
                }
            }),
    {
        if let Err(e) = enforce_unfunded(funds) {
            return Err(CourtContractError::PaymentError(e));
        }
        if msgs.len() == 0 {
            return Err(CourtContractError::EmptyProposal);
        }
        if expiry_time_seconds > self.config.max_proposal_expiry_time_seconds {
            return Err(CourtContractError::ProposalLivesTooLong);
        }
        if !self.config.allow_new_proposals() {
            return Err(CourtContractError::NewProposalsNotAllowed);
        }
        let stake = self.stake_of(&sender);
        let supply = self.total_supply;
        if stake > supply {
            return Err(CourtContractError::VotesExceedSupply);
        }
        if supply == 0 {
            return Err(CourtContractError::InsufficientVotesForProposal);
        }
        assert(stake * 100 <= supply * 100) by (nonlinear_arith)
            requires
                stake <= supply,
        ;
        if stake * 100 / supply < self.config.minimum_vote_proposal_percent as u128 {
            return Err(CourtContractError::InsufficientVotesForProposal);
        }
        let lifetime_ms = (expiry_time_seconds as u64) * 1000;
        if now_ms > u64::MAX - lifetime_ms {
            return Err(CourtContractError::Overflow);
        }
        if self.proposals.len() >= 0xffff_ffff {
            return Err(CourtContractError::Overflow);
        }
        let id = self.proposals.len();
        let proposal = TransactionProposalInfo::new(sender.clone(), stake, now_ms + lifetime_ms);
        let mut votes: Vec<VoteEntry> = Vec::new();
        if stake > 0 {
            votes.push(
                VoteEntry {
                    user: sender,
                    info: CourtUserVoteInfo { active_votes: stake, vote: CourtUserVoteStatus::Approve },
                },
            );
        }
        proof {
            let v = votes@;
            assert(v =~= seeded_votes(sender, stake));
            if stake > 0 {
                assert(v.drop_last() =~= Seq::<VoteEntry>::empty());
            }
            reveal_with_fuel(direction_sum, 2);
            assert(direction_sum(v, CourtUserVoteStatus::Approve) == stake);
            assert(direction_sum(v, CourtUserVoteStatus::Oppose) == 0);
            assert(direction_sum(v, CourtUserVoteStatus::Abstain) == 0);
            assert(tallies_match(proposal, v));
            assert(proposal_wf(proposal, v, supply));
        }
        self.proposals.push(proposal);
        self.proposal_msgs.push(msgs);
        let ghost old_votes = self@.proposal_votes;
        self.proposal_votes.push(votes);
        proof {
            assert(self@.proposal_votes.take(id as int) =~= old_votes);
            let m = self@;
            assert forall|p: int| 0 <= p < m.proposals.len() implies proposal_wf(
                #[trigger] m.proposals[p],
                m.proposal_votes[p]@,
                m.total_supply,
            ) by {
                if p < id {
                    assert(m.proposals[p] == old(self)@.proposals[p]);
                }
            }
            let o = old(self)@;
            assert forall|p: int, u: Seq<char>|
                0 <= p < m.proposals.len() && #[trigger] m.has_active_vote(p, u) implies m.vote_of(
                p,
                u,
            ).active_votes <= m.stake_of(u) by {
                if p < id {
                    assert(m.proposal_votes[p] == o.proposal_votes[p]);
                    assert(o.has_active_vote(p, u));
                } else {
                    let v = m.proposal_votes[p]@;
                    assert(v == seeded_votes(sender, stake));
                    let i = choose|i: int| 0 <= i < v.len() && v[i].user@ == u;
                    assert(i == 0);
                    lemma_vote_at(v, 0);
                }
            }
        }
        Ok(id as u32)
    }
}

/// The proposal after a participant whose previous record was `prev` votes
/// `d` with `stake`: the previous weight leaves the previous direction's tally,
/// then the current stake joins the new direction's tally.
pub open spec fn revoted(
    p: TransactionProposalInfo,
    prev: CourtUserVoteInfo,
    stake: u128,
    d: CourtUserVoteStatus,
) -> TransactionProposalInfo {
    let next = CourtUserVoteInfo { active_votes: stake, vote: d };
    TransactionProposalInfo {
        votes_for: (p.votes_for - info_contribution(prev, CourtUserVoteStatus::Approve)
            + info_contribution(next, CourtUserVoteStatus::Approve)) as u128,
        votes_against: (p.votes_against - info_contribution(prev, CourtUserVoteStatus::Oppose)
            + info_contribution(next, CourtUserVoteStatus::Oppose)) as u128,
        votes_abstain: (p.votes_abstain - info_contribution(prev, CourtUserVoteStatus::Abstain)
            + info_contribution(next, CourtUserVoteStatus::Abstain)) as u128,
        ..p
    }
}

/// The tallies' total after the revote described by `revoted`.
pub open spec fn revoted_total(p: TransactionProposalInfo, prev: CourtUserVoteInfo, stake: u128) -> int {
    crate::proposal::total_votes(p) - prev.active_votes + stake
}

/// Records `info` as `user`'s vote in one proposal's ledger.
fn record_vote(votes: &mut Vec<VoteEntry>, user: String, info: CourtUserVoteInfo)
    requires
        vote_keys_unique(old(votes)@),
        weights_positive(old(votes)@),
        info.active_votes > 0,
    ensures
        vote_keys_unique(final(votes)@),
        weights_positive(final(votes)@),
        forall|u: Seq<char>|
            #[trigger] vote_in(final(votes)@, u) == if u == user@ {
                info
            } else {
                vote_in(old(votes)@, u)
            },
        forall|u: Seq<char>|
            #[trigger] has_vote_entry(final(votes)@, u) == (has_vote_entry(old(votes)@, u) || u
                == user@),
        forall|d: CourtUserVoteStatus|
            #[trigger] direction_sum(final(votes)@, d) == direction_sum(old(votes)@, d)
                - info_contribution(vote_in(old(votes)@, user@), d) + info_contribution(info, d),
{
    let ghost s = votes@;
    let entry = VoteEntry { user, info };
    match CourtState::find_vote(votes, &entry.user) {
        Some(i) => {
            proof {
                lemma_vote_at(s, i as int);
                lemma_vote_update(s, i as int, entry);
                assert forall|d: CourtUserVoteStatus| #[trigger]
                    direction_sum(s.update(i as int, entry), d) == direction_sum(s, d)
                        - info_contribution(vote_in(s, entry.user@), d) + info_contribution(
                        info,
                        d,
                    ) by {
                    lemma_direction_sum_update(s, i as int, entry, d);
                }
            }
            votes.set(i, entry);
        },
        None => {
            proof {
                lemma_vote_push(s, entry);
            }
            votes.push(entry);
        },
    }
}

/// The three tallies after the revote described by `revoted`, or `None` when
/// they would exceed the supply.
fn revote_tallies(
    p: &TransactionProposalInfo,
    prev: CourtUserVoteInfo,
    stake: u128,
    vote: CourtUserVoteStatus,
    supply: u128,
) -> (r: Option<(u128, u128, u128)>)
    requires
        crate::proposal::total_votes(*p) <= supply,
        info_contribution(prev, prev.vote) <= match prev.vote {
            CourtUserVoteStatus::Approve => p.votes_for,
            CourtUserVoteStatus::Oppose => p.votes_against,
            CourtUserVoteStatus::Abstain => p.votes_abstain,
        },
    ensures
        r is None <==> revoted_total(*p, prev, stake) > supply,
        r is Some ==> ({
            let q = revoted(*p, prev, stake, vote);
            &&& r->Some_0.0 == q.votes_for
            &&& r->Some_0.1 == q.votes_against
            &&& r->Some_0.2 == q.votes_abstain
        }),
{
    let mut votes_for = p.votes_for;
    let mut votes_against = p.votes_against;
    let mut votes_abstain = p.votes_abstain;
    match prev.vote {
        CourtUserVoteStatus::Approve => {
            votes_for = votes_for - prev.active_votes;
        },
        CourtUserVoteStatus::Oppose => {
            votes_against = votes_against - prev.active_votes;
        },
        CourtUserVoteStatus::Abstain => {
            votes_abstain = votes_abstain - prev.active_votes;
        },
    }
    let counted = votes_for + votes_against + votes_abstain;
    if stake > supply - counted {
        return None;
    }
    match vote {
        CourtUserVoteStatus::Approve => {
            votes_for = votes_for + stake;
        },
        CourtUserVoteStatus::Oppose => {
            votes_against = votes_against + stake;
        },
        CourtUserVoteStatus::Abstain => {
            votes_abstain = votes_abstain + stake;
        },
    }
    Some((votes_for, votes_against, votes_abstain))
}

/// Votes of every participant but `u` on proposal `id` are as they were.
pub open spec fn other_votes_kept(a: CourtModel, b: CourtModel, id: int, u: Seq<char>) -> bool {
    forall|v: Seq<char>|
        v != u ==> #[trigger] a.vote_of(id, v) == b.vote_of(id, v) && a.has_active_vote(id, v)
            == b.has_active_vote(id, v)
}

impl CourtState {
    /// Registers `sender`'s vote `vote` on proposal `proposal_id` with their
    /// whole current stake, replacing the weight and direction they registered
    /// before, if any. Returns the weight now counted.
    #[verifier::rlimit(40)]
    pub fn vote(
        &mut self,
        sender: String,
        funds: &Vec<BorshableCoin>,
        proposal_id: u32,
        vote: CourtUserVoteStatus,
        now_ms: u64,
    ) -> (r: Result<u128, CourtContractError>)
        requires
            old(self).wf(),
        ensures
            final(self).wf(),
            r is Err ==> *final(self) == *old(self),
            ({
                let m = old(self)@;
                let id = proposal_id as int;
                let stake = m.stake_of(sender@);
                let prev = m.vote_of(id, sender@);
                let found = funds@.len() == 0 && id < m.proposals.len();
                let pending = found && m.status_of(id, now_ms) is Pending;
                let staked = pending && stake > 0;
                let changed = staked && !(prev.active_votes == stake && prev.vote == vote);
                let updated = revoted(m.proposals[id], prev, stake, vote);
                &&& funds@.len() > 0 <==> (r matches Err(CourtContractError::PaymentError(_)))
                &&& (funds@.len() == 0 && id >= m.proposals.len()) <==> r == Err::<
                    u128,
                    CourtContractError,
                >(CourtContractError::ProposalNotFound(proposal_id))
                &&& (found && !(m.status_of(id, now_ms) is Pending)) <==> r == Err::<
                    u128,
                    CourtContractError,
                >(
                    CourtContractError::UnexpectedProposalStatus {
                        expected: TransactionProposalStatus::Pending,
                        actual: m.status_of(id, now_ms),
                    },
                )
                &&& (pending && stake == 0) <==> r == Err::<u128, CourtContractError>(
                    CourtContractError::NoStakedVotes,
                )
                &&& (staked && prev.active_votes == stake && prev.vote == vote) <==> r == Err::<
                    u128,
                    CourtContractError,
                >(CourtContractError::AlreadyVoted)
                &&& (changed && revoted_total(m.proposals[id], prev, stake) > m.total_supply) <==> r
                    == Err::<u128, CourtContractError>(CourtContractError::VotesExceedSupply)
                &&& r is Ok <==> (changed && revoted_total(m.proposals[id], prev, stake)
                    <= m.total_supply)
                &&& r is Ok ==> {
                    let f = final(self)@;
                    &&& r->Ok_0 == stake
                    &&& f.proposals == m.proposals.update(id, updated)
                    &&& f.vote_of(id, sender@) == (CourtUserVoteInfo {
                        active_votes: stake,
                        vote,
                    })
                    &&& f.has_active_vote(id, sender@)
                    &&& other_votes_kept(f, m, id, sender@)
                    &&& (tallies_match(m.proposals[id], m.proposal_votes[id]@) ==> tallies_match(
                        f.proposals[id],
                        f.proposal_votes[id]@,
                    ))
                    &&& forall|p: int|
                        0 <= p < m.proposals.len() && p != id ==> #[trigger] f.proposal_votes[p]
                            == m.proposal_votes[p]
                    &&& f.proposal_msgs == m.proposal_msgs
                    &&& f.config == m.config && f.total_supply == m.total_supply
                    &&& f.stakes == m.stakes && f.votes_denom == m.votes_denom
                    &&& f.contract_address == m.contract_address
                }
            }),
    {
        if let Err(e) = enforce_unfunded(funds) {
            return Err(CourtContractError::PaymentError(e));
        }
        if proposal_id as usize >= self.proposals.len() {
            return Err(CourtContractError::ProposalNotFound(proposal_id));
        }
        let id = proposal_id as usize;
        let supply = self.total_supply;
        proof {
            assert(proposal_wf(self@.proposals[id as int], self@.proposal_votes[id as int]@, supply));
        }
        let status = self.proposals[id].status(now_ms, supply, &self.config);
        if let Err(e) = status.enforce_status(TransactionProposalStatus::Pending) {
            return Err(e);
        }
        let stake = self.stake_of(&sender);
        if stake == 0 {
            return Err(CourtContractError::NoStakedVotes);
        }
        let ghost m = self@;
        let ghost votes = m.proposal_votes[id as int]@;
        let existing = Self::find_vote(&self.proposal_votes[id], &sender);
        let prev = match existing {
            Some(i) => {
                proof {
                    lemma_vote_at(votes, i as int);
                }
                self.proposal_votes[id][i].info
            },
            None => CourtUserVoteInfo { active_votes: 0, vote: CourtUserVoteStatus::Abstain },
        };
        assert(prev == m.vote_of(id as int, sender@));
        if prev.active_votes == stake && prev.vote == vote {
            return Err(CourtContractError::AlreadyVoted);
        }
        proof {
            if let Some(i) = existing {
                lemma_contribution_bounded(votes, i as int, prev.vote);
            }
        }
        let (votes_for, votes_against, votes_abstain) = match revote_tallies(
            &self.proposals[id],
            prev,
            stake,
            vote,
            supply,
        ) {
            Some(t) => t,
            None => {
                return Err(CourtContractError::VotesExceedSupply);
            },
        };
        self.proposals[id].votes_for = votes_for;
        self.proposals[id].votes_against = votes_against;
        self.proposals[id].votes_abstain = votes_abstain;
        let info = CourtUserVoteInfo { active_votes: stake, vote };
        let ghost who = sender@;
        record_vote(&mut self.proposal_votes[id], sender, info);
        proof {
            let f = self@;
            assert forall|v: Seq<char>| v != who implies #[trigger] f.vote_of(id as int, v)
                == m.vote_of(id as int, v) && f.has_active_vote(id as int, v) == m.has_active_vote(
                id as int,
                v,
            ) by {}
            lemma_votes_within_stakes_revote(m, f, id as int, who);
            assert(f.proposals[id as int] == revoted(m.proposals[id as int], prev, stake, vote));
            let np = f.proposals[id as int];
            let nv = f.proposal_votes[id as int]@;
            assert(vote_keys_unique(nv));
            assert(weights_positive(nv));
            assert(direction_sum(nv, CourtUserVoteStatus::Approve) <= np.votes_for);
            assert(direction_sum(nv, CourtUserVoteStatus::Oppose) <= np.votes_against);
            assert(direction_sum(nv, CourtUserVoteStatus::Abstain) <= np.votes_abstain);
            assert(tallies_within_supply(np, supply));
            assert(proposal_wf(f.proposals[id as int], f.proposal_votes[id as int]@, supply));
            assert forall|p: int| 0 <= p < f.proposals.len() implies proposal_wf(
                #[trigger] f.proposals[p],
                f.proposal_votes[p]@,
                f.total_supply,
            ) by {
                if p != id {
                    assert(f.proposals[p] == m.proposals[p]);
                }
            }
        }
        Ok(stake)
    }
}

/// How many proposals below `p` hold a live vote of `u`.
pub open spec fn active_count_below(m: CourtModel, u: Seq<char>, p: int) -> int
    decreases p,
{
    if p <= 0 {
        0
    } else {
        active_count_below(m, u, p - 1) + if m.has_active_vote(p - 1, u) {
            1int
        } else {
            0int
        }
    }
}

/// Whether a sweep of `u`'s votes with this limit reaches proposal `p`: the
/// sweep takes `u`'s live votes in increasing proposal id, at most `limit` of
/// them (all of them without a limit).
pub open spec fn swept(m: CourtModel, u: Seq<char>, p: int, limit: Option<u32>) -> bool {
    &&& 0 <= p < m.proposals.len()
    &&& m.has_active_vote(p, u)
    &&& match limit {
        Some(l) => active_count_below(m, u, p) < l,
        None => true,
    }
}

/// The participant whose votes a sweep clears: `user`, or else the sender.
pub open spec fn sweep_target(user: Option<String>, sender: String) -> Seq<char> {
    match user {
        Some(x) => x@,
        None => sender@,
    }
}

/// Removes `user`'s entry from one proposal's vote ledger, if it has one.
fn remove_vote(votes: &mut Vec<VoteEntry>, user: &String)
    requires
        vote_keys_unique(old(votes)@),
        weights_positive(old(votes)@),
    ensures
        vote_keys_unique(final(votes)@),
        weights_positive(final(votes)@),
        !has_vote_entry(final(votes)@, user@),
        forall|u: Seq<char>|
            u != user@ ==> #[trigger] vote_in(final(votes)@, u) == vote_in(old(votes)@, u)
                && has_vote_entry(final(votes)@, u) == has_vote_entry(old(votes)@, u),
        forall|d: CourtUserVoteStatus|
            #[trigger] direction_sum(final(votes)@, d) <= direction_sum(old(votes)@, d),
        !has_vote_entry(old(votes)@, user@) ==> final(votes)@ == old(votes)@,
{
    let ghost s = votes@;
    match CourtState::find_vote(votes, user) {
        Some(i) => {
            proof {
                lemma_vote_remove(s, i as int);
                assert forall|d: CourtUserVoteStatus| #[trigger]
                    direction_sum(s.remove(i as int), d) <= direction_sum(s, d) by {
                    lemma_direction_sum_remove(s, i as int, d);
                }
            }
            votes.remove(i);
        },
        None => {},
    }
}

impl CourtState {
    /// Sweeps `user`'s live votes (the sender's when `user` is `None`), at
    /// most `limit` of them in increasing proposal id. Fails, changing nothing,
    /// if any of them is on a proposal that has not reached a terminal status.
    pub fn deactivate_votes(
        &mut self,
        sender: String,
        funds: &Vec<BorshableCoin>,
        user: Option<String>,
        limit: Option<u32>,
        now_ms: u64,
    ) -> (r: Result<(), CourtContractError>)
        requires
            old(self).wf(),
        ensures
            final(self).wf(),
            r is Err ==> *final(self) == *old(self),
            ({
                let m = old(self)@;
                let u = sweep_target(user, sender);
                &&& funds@.len() > 0 <==> (r matches Err(CourtContractError::PaymentError(_)))
                &&& funds@.len() == 0 ==> (r is Ok <==> forall|p: int|
                    #[trigger] swept(m, u, p, limit) ==> crate::status::spec_is_finalized(
                        m.status_of(p, now_ms),
                    ))
                &&& r matches Err(CourtContractError::ProposalNotFinalized(id)) ==> {
                    &&& swept(m, u, id as int, limit)
                    &&& !crate::status::spec_is_finalized(m.status_of(id as int, now_ms))
                    &&& forall|q: int|
                        0 <= q < id && #[trigger] swept(m, u, q, limit)
                            ==> crate::status::spec_is_finalized(m.status_of(q, now_ms))
                }
                &&& funds@.len() == 0 && r is Err ==> (r matches Err(
                    CourtContractError::ProposalNotFinalized(_),
                ))
                &&& r is Ok ==> {
                    let f = final(self)@;
                    &&& forall|p: int|
                        0 <= p < m.proposals.len() ==> #[trigger] f.has_active_vote(p, u) == (
                        m.has_active_vote(p, u) && !swept(m, u, p, limit))
                    &&& forall|p: int, v: Seq<char>|
                        0 <= p < m.proposals.len() && v != u ==> #[trigger] f.vote_of(p, v)
                            == m.vote_of(p, v) && f.has_active_vote(p, v) == m.has_active_vote(
                            p,
                            v,
                        )
                    &&& forall|p: int|
                        0 <= p < m.proposals.len() && !swept(m, u, p, limit)
                            ==> #[trigger] f.proposal_votes[p] == m.proposal_votes[p]
                    &&& f == (CourtModel { proposal_votes: f.proposal_votes, ..m })
                }
            }),
    {
        if let Err(e) = enforce_unfunded(funds) {
            return Err(CourtContractError::PaymentError(e));
        }
        let ghost wanted = sweep_target(user, sender);
        let target = match user {
            Some(x) => x,
            None => sender,
        };
        let ghost m = self@;
        let ghost u = target@;
        let n = self.proposals.len();
        let supply = self.total_supply;
        let mut count: u32 = 0;
        let mut p: usize = 0;
        while p < n
            invariant
                self.wf(),
                self@ == m,
                *self == *old(self),
                u == target@,
                u == wanted,
                wanted == sweep_target(user, sender),
                funds@.len() == 0,
                supply == m.total_supply,
                n == m.proposals.len(),
                p <= n,
                count == active_count_below(m, u, p as int),
                count <= p,
                forall|q: int|
                    0 <= q < p && #[trigger] swept(m, u, q, limit)
                        ==> crate::status::spec_is_finalized(m.status_of(q, now_ms)),
            decreases n - p,
        {
            let within = match limit {
                Some(l) => count < l,
                None => true,
            };
            let has = match Self::find_vote(&self.proposal_votes[p], &target) {
                Some(_) => true,
                None => false,
            };
            proof {
                assert(has == m.has_active_vote(p as int, u));
                assert(m.wf());
                assert(0 <= p < m.proposals.len());
            }
            if has && within {
                proof {
                    assert(proposal_wf(m.proposals[p as int], m.proposal_votes[p as int]@, supply));
                }
                let status = self.proposals[p].status(now_ms, supply, &self.config);
                if !status.is_finalized() {
                    assert(swept(m, u, p as int, limit));
                    assert((p as u32) as int == p as int);


                    return Err(CourtContractError::ProposalNotFinalized(p as u32));
                }
            }
            if has {
                count = count + 1;
            }
            p += 1;
        }
        proof {
            assert forall|q: int| #[trigger] swept(m, u, q, limit) implies crate::status::spec_is_finalized(
                m.status_of(q, now_ms),
            ) by {}
        }
        let mut count: u32 = 0;
        let mut p: usize = 0;
        while p < n
            invariant
                self@.wf(),
                u == target@,
                u == wanted,
                wanted == sweep_target(user, sender),
                funds@.len() == 0,
                supply == m.total_supply,
                m.wf(),
                n == m.proposals.len(),
                p <= n,
                count == active_count_below(m, u, p as int),
                count <= p,
                self@ == (CourtModel { proposal_votes: self@.proposal_votes, ..m }),
                self@.proposal_votes.len() == n,
                forall|q: int|
                    p <= q < n ==> #[trigger] self@.proposal_votes[q] == m.proposal_votes[q],
                forall|q: int|
                    0 <= q < p ==> #[trigger] self@.has_active_vote(q, u) == (m.has_active_vote(
                        q,
                        u,
                    ) && !swept(m, u, q, limit)),
                forall|q: int, v: Seq<char>|
                    0 <= q < p && v != u ==> #[trigger] self@.vote_of(q, v) == m.vote_of(q, v)
                        && self@.has_active_vote(q, v) == m.has_active_vote(q, v),
                forall|q: int|
                    0 <= q < p && !swept(m, u, q, limit) ==> #[trigger] self@.proposal_votes[q]
                        == m.proposal_votes[q],
            decreases n - p,
        {
            let within = match limit {
                Some(l) => count < l,
                None => true,
            };
            let ghost start = self@;
            let has = match Self::find_vote(&self.proposal_votes[p], &target) {
                Some(_) => true,
                None => false,
            };
            proof {
                assert(self@.proposal_votes[p as int] == m.proposal_votes[p as int]);
                assert(has == m.has_active_vote(p as int, u));
                assert(proposal_wf(m.proposals[p as int], m.proposal_votes[p as int]@, supply));
            }
            if has && within {
                let ghost before = self@;
                remove_vote(&mut self.proposal_votes[p], &target);
                proof {
                    let after = self@;
                    assert(swept(m, u, p as int, limit));
                    assert(!after.has_active_vote(p as int, u));
                    assert forall|v: Seq<char>| v != u implies #[trigger] after.vote_of(p as int, v)
                        == before.vote_of(p as int, v) && after.has_active_vote(p as int, v)
                        == before.has_active_vote(p as int, v) by {
                        assert(vote_in(after.proposal_votes[p as int]@, v) == vote_in(
                            before.proposal_votes[p as int]@,
                            v,
                        ));
                    }
                    assert forall|q: int| 0 <= q < n && q != p implies #[trigger] after.proposal_votes[q]
                        == before.proposal_votes[q] by {}
                    lemma_votes_within_stakes_revote(before, after, p as int, u);
                    assert forall|v: Seq<char>| v != u implies after.vote_of(p as int, v)
                        == m.vote_of(p as int, v) && after.has_active_vote(p as int, v)
                        == m.has_active_vote(p as int, v) by {
                        assert(vote_in(after.proposal_votes[p as int]@, v) == vote_in(
                            m.proposal_votes[p as int]@,
                            v,
                        ));
                    }
                    assert forall|q: int| 0 <= q < p implies #[trigger] after.proposal_votes[q]
                        == before.proposal_votes[q] by {}
                    assert forall|q: int| 0 <= q < n implies proposal_wf(
                        #[trigger] after.proposals[q],
                        after.proposal_votes[q]@,
                        after.total_supply,
                    ) by {
                        assert(proposal_wf(before.proposals[q], before.proposal_votes[q]@, supply));
                        if q == p {
                            let nv = after.proposal_votes[q]@;
                            let ov = before.proposal_votes[q]@;
                            assert(direction_sum(nv, CourtUserVoteStatus::Approve) <= direction_sum(
                                ov,
                                CourtUserVoteStatus::Approve,
                            ));
                            assert(direction_sum(nv, CourtUserVoteStatus::Oppose) <= direction_sum(
                                ov,
                                CourtUserVoteStatus::Oppose,
                            ));
                            assert(direction_sum(nv, CourtUserVoteStatus::Abstain) <= direction_sum(
                                ov,
                                CourtUserVoteStatus::Abstain,
                            ));
                        }
                    }
                }
            } else {
                assert(!swept(m, u, p as int, limit));
            }
            proof {
                let after = self@;
                assert forall|q: int| 0 <= q < p + 1 implies #[trigger] after.has_active_vote(q, u)
                    == (m.has_active_vote(q, u) && !swept(m, u, q, limit)) by {
                    if q < p {
                        assert(start.has_active_vote(q, u) == (m.has_active_vote(q, u) && !swept(
                            m,
                            u,
                            q,
                            limit,
                        )));
                        assert(after.proposal_votes[q] == start.proposal_votes[q]);
                    }
                }
                assert forall|q: int, v: Seq<char>| 0 <= q < p + 1 && v != u implies #[trigger]
                    after.vote_of(q, v) == m.vote_of(q, v) && after.has_active_vote(q, v)
                        == m.has_active_vote(q, v) by {
                    if q < p {
                        assert(start.vote_of(q, v) == m.vote_of(q, v));
                        assert(start.has_active_vote(q, v) == m.has_active_vote(q, v));
                        assert(after.proposal_votes[q] == start.proposal_votes[q]);
                    }
                }
            }
            if has {
                count = count + 1;
            }
            p += 1;
        }
        Ok(())
    }
}

/// The amount of the governance token that executing proposal `p` mints.
pub open spec fn proposal_mint(m: CourtModel, p: int) -> int {
    minted_amount(m.proposal_msgs[p]@, m.votes_denom)
}

impl CourtState {
    /// The supply after the bundle's mints of the governance token, or `None`
    /// when it would no longer be safe.
    fn supply_after_mints(&self, id: usize) -> (r: Option<u128>)
        requires
            self.wf(),
            id < self@.proposals.len(),
        ensures
            r is Some <==> supply_is_safe(self@.total_supply + proposal_mint(self@, id as int)),
            r is Some ==> r->Some_0 == self@.total_supply + proposal_mint(self@, id as int),
    {
        let msgs = &self.proposal_msgs[id];
        let ghost s = msgs@;
        let mut supply = self.total_supply;
        let mut i: usize = 0;
        while i < msgs.len()
            invariant
                s == msgs@,
                s == self@.proposal_msgs[id as int]@,
                i <= s.len(),
                supply == self@.total_supply + minted_amount(s.take(i as int), self@.votes_denom),
                supply_is_safe(supply as int),
            decreases s.len() - i,
        {
            proof {
                assert(s.take(i + 1).drop_last() =~= s.take(i as int));
            }
            match &msgs[i] {
                ProposedCourtMsg::TokenfactoryMint { tokens } => {
                    if tokens.denom == self.votes_denom {
                        if tokens.amount > u128::MAX / 10000 - supply {
                            proof {
                                let t = s.take(i + 1);
                                assert(t.last() == s[i as int]);
                                assert(minted_amount(t, self@.votes_denom) == minted_amount(
                                    s.take(i as int),
                                    self@.votes_denom,
                                ) + tokens.amount);
                                lemma_minted_amount_monotone(s, self@.votes_denom, i + 1, s.len() as int);
                                assert(s.take(s.len() as int) =~= s);
                                let total = self@.total_supply + proposal_mint(self@, id as int);
                                assert(total > u128::MAX / 10000);
                                assert(total * 10000 > u128::MAX);
                            }
                            return None;
                        }
                        supply = supply + tokens.amount;
                    }
                },
                _ => {},
            }
            i += 1;
        }
        proof {
            assert(s.take(s.len() as int) =~= s);
        }
        Some(supply)
    }

    /// Executes a passed proposal: marks it executed and applies its mints of
    /// the governance token to the supply. Its actions are then released to
    /// the caller through `proposal_messages`; no proposal is executed twice.
    pub fn execute_proposal(
        &mut self,
        funds: &Vec<BorshableCoin>,
        proposal_id: u32,
        now_ms: u64,
    ) -> (r: Result<(), CourtContractError>)
        requires
            old(self).wf(),
        ensures
            final(self).wf(),
            r is Err ==> *final(self) == *old(self),
            ({
                let m = old(self)@;
                let id = proposal_id as int;
                let found = funds@.len() == 0 && id < m.proposals.len();
                let passed = found && m.status_of(id, now_ms) is Passed;
                &&& funds@.len() > 0 <==> (r matches Err(CourtContractError::PaymentError(_)))
                &&& (funds@.len() == 0 && id >= m.proposals.len()) <==> r == Err::<
                    (),
                    CourtContractError,
                >(CourtContractError::ProposalNotFound(proposal_id))
                &&& (found && !(m.status_of(id, now_ms) is Passed)) <==> r == Err::<
                    (),
                    CourtContractError,
                >(
                    CourtContractError::UnexpectedProposalStatus {
                        expected: TransactionProposalStatus::Passed,
                        actual: m.status_of(id, now_ms),
                    },
                )
                &&& (passed && !supply_is_safe(m.total_supply + proposal_mint(m, id))) <==> r
                    == Err::<(), CourtContractError>(CourtContractError::TooManyVotesToMint)
                &&& r is Ok <==> (passed && supply_is_safe(m.total_supply + proposal_mint(m, id)))
                &&& r is Ok ==> {
                    let f = final(self)@;
                    &&& f.proposals == m.proposals.update(
                        id,
                        TransactionProposalInfo {
                            execution_status: TransactionProposalExecutionStatus::Executed,
                            ..m.proposals[id]
                        },
                    )
                    &&& f.total_supply == m.total_supply + proposal_mint(m, id)
                    &&& f == (CourtModel {
                        proposals: f.proposals,
                        total_supply: f.total_supply,
                        ..m
                    })
                }
            }),
    {
        if let Err(e) = enforce_unfunded(funds) {
            return Err(CourtContractError::PaymentError(e));
        }
        if proposal_id as usize >= self.proposals.len() {
            return Err(CourtContractError::ProposalNotFound(proposal_id));
        }
        let id = proposal_id as usize;
        let supply = self.total_supply;
        proof {
            assert(proposal_wf(self@.proposals[id as int], self@.proposal_votes[id as int]@, supply));
        }
        let status = self.proposals[id].status(now_ms, supply, &self.config);
        if let Err(e) = status.enforce_status(TransactionProposalStatus::Passed) {
            return Err(e);
        }
        let new_supply = match self.supply_after_mints(id) {
            Some(s) => s,
            None => {
                return Err(CourtContractError::TooManyVotesToMint);
            },
        };
        let ghost m = self@;
        self.proposals[id].set_execution_status(TransactionProposalExecutionStatus::Executed);
        self.total_supply = new_supply;
        proof {
            let f = self@;
            lemma_votes_within_stakes_kept(m, f);
            lemma_minted_amount_nonneg(m.proposal_msgs[id as int]@, m.votes_denom);
            assert forall|p: int| 0 <= p < f.proposals.len() implies proposal_wf(
                #[trigger] f.proposals[p],
                f.proposal_votes[p]@,
                f.total_supply,
            ) by {
                assert(proposal_wf(m.proposals[p], m.proposal_votes[p]@, m.total_supply));
            }
        }
        Ok(())
    }
}

/// `value` when given, else `current`.
pub open spec fn or_keep<T>(value: Option<T>, current: T) -> T {
    match value {
        Some(v) => v,
        None => current,
    }
}

/// The failure that every administrator operation checks first: a caller other
/// than the administrator, then an attached payment.
pub open spec fn admin_gate_error(m: CourtModel, sender: Seq<char>, funds: Seq<BorshableCoin>) -> Option<
    CourtContractError,
> {
    if sender != m.config.admin@ {
        Some(CourtContractError::Unauthorized)
    } else if funds.len() > 0 {
        Some(CourtContractError::PaymentError(crate::error::PaymentError::NonPayable))
    } else {
        None
    }
}

impl CourtState {
    fn admin_gate(&self, sender: &String, funds: &Vec<BorshableCoin>) -> (r: Result<
        (),
        CourtContractError,
    >)
        ensures
            r is Ok <==> admin_gate_error(self@, sender@, funds@) is None,
            r is Err ==> r == Err::<(), CourtContractError>(
                admin_gate_error(self@, sender@, funds@)->Some_0,
            ),
    {
        if *sender != self.config.admin {
            return Err(CourtContractError::Unauthorized);
        }
        if let Err(e) = enforce_unfunded(funds) {
            return Err(CourtContractError::PaymentError(e));
        }
        Ok(())
    }

    /// Changes the given governance parameters and stamps the change with
    /// `now_ms`, which rejects every proposal that expired before it. Refused
    /// while any vote is live.
    pub fn change_config(
        &mut self,
        sender: &String,
        funds: &Vec<BorshableCoin>,
        minimum_vote_proposal_percent: Option<u8>,
        minimum_vote_turnout_percent: Option<u8>,
        minimum_vote_pass_percent: Option<u8>,
        max_proposal_expiry_time_seconds: Option<u32>,
        execution_expiry_time_seconds: Option<u32>,
        now_ms: u64,
    ) -> (r: Result<(), CourtContractError>)
        requires
            old(self).wf(),
        ensures
            final(self).wf(),
            r is Err ==> *final(self) == *old(self),
            ({
                let m = old(self)@;
                let gate = admin_gate_error(m, sender@, funds@);
                &&& gate is Some ==> r == Err::<(), CourtContractError>(gate->Some_0)
                &&& (gate is None && m.any_active_votes()) <==> r == Err::<(), CourtContractError>(
                    CourtContractError::VotesActive,
                )
                &&& r is Ok <==> gate is None && !m.any_active_votes()
                &&& r is Ok ==> final(self)@ == (CourtModel {
                    config: CourtAppConfig {
                        minimum_vote_proposal_percent: or_keep(
                            minimum_vote_proposal_percent,
                            m.config.minimum_vote_proposal_percent,
                        ),
                        minimum_vote_turnout_percent: or_keep(
                            minimum_vote_turnout_percent,
                            m.config.minimum_vote_turnout_percent,
                        ),
                        minimum_vote_pass_percent: or_keep(
                            minimum_vote_pass_percent,
                            m.config.minimum_vote_pass_percent,
                        ),
                        max_proposal_expiry_time_seconds: or_keep(
                            max_proposal_expiry_time_seconds,
                            m.config.max_proposal_expiry_time_seconds,
                        ),
                        execution_expiry_time_seconds: or_keep(
                            execution_expiry_time_seconds,
                            m.config.execution_expiry_time_seconds,
                        ),
                        last_config_change_timestamp_ms: now_ms,
                        ..m.config
                    },
                    ..m
                })
            }),
    {
        self.admin_gate(sender, funds)?;
        if self.any_active_votes() {
            return Err(CourtContractError::VotesActive);
        }
        let ghost m = self@;
        if let Some(v) = minimum_vote_proposal_percent {
            self.config.minimum_vote_proposal_percent = v;
        }
        if let Some(v) = minimum_vote_turnout_percent {
            self.config.minimum_vote_turnout_percent = v;
        }
        if let Some(v) = minimum_vote_pass_percent {
            self.config.minimum_vote_pass_percent = v;
        }
        if let Some(v) = max_proposal_expiry_time_seconds {
            self.config.max_proposal_expiry_time_seconds = v;
        }
        if let Some(v) = execution_expiry_time_seconds {
            self.config.execution_expiry_time_seconds = v;
        }
        self.config.last_config_change_timestamp_ms = now_ms;
        proof {
            lemma_votes_within_stakes_kept(m, self@);
        }
        Ok(())
    }

    /// Hands the administrator role to `admin`. Refused when `admin` is the
    /// engine's own identity while new proposals are disabled.
    pub fn change_admin(&mut self, sender: &String, funds: &Vec<BorshableCoin>, admin: String) -> (r:
        Result<(), CourtContractError>)
        requires
            old(self).wf(),
        ensures
            final(self).wf(),
            r is Err ==> *final(self) == *old(self),
            ({
                let m = old(self)@;
                let gate = admin_gate_error(m, sender@, funds@);
                let locks_out = !m.config.allow_new_proposals && admin@ == m.contract_address;
                &&& gate is Some ==> r == Err::<(), CourtContractError>(gate->Some_0)
                &&& (gate is None && locks_out) <==> r == Err::<(), CourtContractError>(
                    CourtContractError::WouldLockupContract,
                )
                &&& r is Ok <==> gate is None && !locks_out
                &&& r is Ok ==> final(self)@ == (CourtModel {
                    config: CourtAppConfig { admin, ..m.config },
                    ..m
                })
            }),
    {
        self.admin_gate(sender, funds)?;
        if !self.config.allow_new_proposals() && admin == self.contract_address {
            return Err(CourtContractError::WouldLockupContract);
        }
        let ghost m = self@;
        self.config.admin = admin;
        proof {
            lemma_votes_within_stakes_kept(m, self@);
        }
        Ok(())
    }

    /// Enables or disables new proposals. Refused when disabling them while
    /// the administrator is the engine's own identity.
    pub fn allow_new_proposals(
        &mut self,
        sender: &String,
        funds: &Vec<BorshableCoin>,
        allowed: bool,
    ) -> (r: Result<(), CourtContractError>)
        requires
            old(self).wf(),
        ensures
            final(self).wf(),
            r is Err ==> *final(self) == *old(self),
            ({
                let m = old(self)@;
                let gate = admin_gate_error(m, sender@, funds@);
                let locks_out = !allowed && m.config.admin@ == m.contract_address;
                &&& gate is Some ==> r == Err::<(), CourtContractError>(gate->Some_0)
                &&& (gate is None && locks_out) <==> r == Err::<(), CourtContractError>(
                    CourtContractError::WouldLockupContract,
                )
                &&& r is Ok <==> gate is None && !locks_out
                &&& r is Ok ==> final(self)@ == (CourtModel {
                    config: CourtAppConfig { allow_new_proposals: allowed, ..m.config },
                    ..m
                })
            }),
    {
        self.admin_gate(sender, funds)?;
        if !allowed && self.config.admin == self.contract_address {
            return Err(CourtContractError::WouldLockupContract);
        }
        let ghost m = self@;
        self.config.set_allow_new_proposals(allowed);
        proof {
            lemma_votes_within_stakes_kept(m, self@);
        }
        Ok(())
    }

    /// Mints `amount` new shares, diluting the existing ones; the caller hands
    /// them to their receiver. Refused when the supply would no longer be safe.
    pub fn mint_shares(&mut self, sender: &String, funds: &Vec<BorshableCoin>, amount: u128) -> (r:
        Result<u128, CourtContractError>)
        requires
            old(self).wf(),
        ensures
            final(self).wf(),
            r is Err ==> *final(self) == *old(self),
            ({
                let m = old(self)@;
                let gate = admin_gate_error(m, sender@, funds@);
                let safe = supply_is_safe(m.total_supply + amount);
                &&& gate is Some ==> r == Err::<u128, CourtContractError>(gate->Some_0)
                &&& (gate is None && !safe) <==> r == Err::<u128, CourtContractError>(
                    CourtContractError::TooManyVotesToMint,
                )
                &&& r is Ok <==> gate is None && safe
                &&& r is Ok ==> r->Ok_0 == m.total_supply + amount && final(self)@ == (CourtModel {
                    total_supply: (m.total_supply + amount) as u128,
                    ..m
                })
            }),
    {
        if let Err(e) = self.admin_gate(sender, funds) {
            return Err(e);
        }
        if amount > u128::MAX / 10000 - self.total_supply {
            return Err(CourtContractError::TooManyVotesToMint);
        }
        let ghost m = self@;
        self.total_supply = self.total_supply + amount;
        proof {
            let f = self@;
            lemma_votes_within_stakes_kept(m, f);
            assert forall|p: int| 0 <= p < f.proposals.len() implies proposal_wf(
                #[trigger] f.proposals[p],
                f.proposal_votes[p]@,
                f.total_supply,
            ) by {
                assert(proposal_wf(m.proposals[p], m.proposal_votes[p]@, m.total_supply));
            }
        }
        Ok(self.total_supply)
    }
}

/// The proposal ids of one page: `skip` ids are passed over, then at most
/// `limit` are listed, in increasing order or, with `descending`, decreasing
/// from the newest.
pub open spec fn page_of_ids(n: int, skip: int, limit: int, descending: bool) -> Seq<u32> {
    let start = if skip < n { skip } else { n };
    let len = if limit < n - start { limit } else { n - start };
    Seq::new(
        len as nat,
        |k: int|
            if descending {
                (n - 1 - start - k) as u32
            } else {
                (start + k) as u32
            },
    )
}

impl CourtState {
    /// The stored record of a proposal, if the id exists.
    pub fn proposal(&self, proposal_id: u32) -> (r: Option<&TransactionProposalInfo>)
        ensures
            r is Some <==> proposal_id < self@.proposals.len(),
            r is Some ==> *r->Some_0 == self@.proposals[proposal_id as int],
    {
        if (proposal_id as usize) < self.proposals.len() {
            Some(&self.proposals[proposal_id as usize])
        } else {
            None
        }
    }

    /// The actions bundled in a proposal, if the id exists.
    pub fn proposal_messages(&self, proposal_id: u32) -> (r: Option<&Vec<ProposedCourtMsg>>)
        requires
            self.wf(),
        ensures
            r is Some <==> proposal_id < self@.proposals.len(),
            r is Some ==> *r->Some_0 == self@.proposal_msgs[proposal_id as int],
    {
        if (proposal_id as usize) < self.proposal_msgs.len() {
            Some(&self.proposal_msgs[proposal_id as usize])
        } else {
            None
        }
    }

    /// The status of a proposal at `now_ms`, if the id exists.
    pub fn proposal_status(&self, proposal_id: u32, now_ms: u64) -> (r: Option<
        TransactionProposalStatus,
    >)
        requires
            self.wf(),
        ensures
            r is Some <==> proposal_id < self@.proposals.len(),
            r is Some ==> r->Some_0 == self@.status_of(proposal_id as int, now_ms),
    {
        if (proposal_id as usize) < self.proposals.len() {
            let id = proposal_id as usize;
            proof {
                assert(proposal_wf(self@.proposals[id as int], self@.proposal_votes[id as int]@, self.total_supply));
            }
            Some(self.proposals[id].status(now_ms, self.total_supply, &self.config))
        } else {
            None
        }
    }

    /// The participant's vote record on a proposal; a zero-weight abstention
    /// when they hold no live vote on it or the id does not exist.
    pub fn user_vote(&self, proposal_id: u32, user: &String) -> (r: CourtUserVoteInfo)
        requires
            self.wf(),
        ensures
            proposal_id < self@.proposals.len() ==> r == self@.vote_of(proposal_id as int, user@),
            proposal_id >= self@.proposals.len() ==> r == crate::user::no_vote(),
    {
        if (proposal_id as usize) >= self.proposal_votes.len() {
            return CourtUserVoteInfo { active_votes: 0, vote: CourtUserVoteStatus::Abstain };
        }
        let votes = &self.proposal_votes[proposal_id as usize];
        match Self::find_vote(votes, user) {
            Some(i) => {
                proof {
                    assert(proposal_wf(
                        self@.proposals[proposal_id as int],
                        votes@,
                        self.total_supply,
                    ));
                    lemma_vote_at(votes@, i as int);
                }
                votes[i].info
            },
            None => CourtUserVoteInfo { active_votes: 0, vote: CourtUserVoteStatus::Abstain },
        }
    }

    /// The ids of the proposals on which the participant holds a live vote,
    /// in increasing order.
    pub fn user_active_proposals(&self, user: &String) -> (r: Vec<u32>)
        requires
            self.wf(),
        ensures
            r@ == user_active_ids(self@, user@, self@.proposals.len() as int),
    {
        let mut r: Vec<u32> = Vec::new();
        let mut p: usize = 0;
        while p < self.proposal_votes.len()
            invariant
                self.wf(),
                p <= self@.proposals.len(),
                r@ == user_active_ids(self@, user@, p as int),
            decreases self@.proposals.len() - p,
        {
            if Self::find_vote(&self.proposal_votes[p], user).is_some() {
                r.push(p as u32);
            }
            proof {
                assert(self@.has_active_vote(p as int, user@) == has_vote_entry(
                    self@.proposal_votes[p as int]@,
                    user@,
                ));
            }
            p += 1;
        }
        r
    }

    /// One page of `user_active_proposals`: `skip` ids passed over, at most
    /// `limit` listed, in increasing order or, with `descending`, decreasing.
    pub fn user_active_proposals_page(
        &self,
        user: &String,
        skip: Option<u32>,
        limit: Option<u32>,
        descending: bool,
    ) -> (r: Vec<u32>)
        requires
            self.wf(),
        ensures
            r@ == skip_page(
                if descending {
                    reversed(user_active_ids(self@, user@, self@.proposals.len() as int))
                } else {
                    user_active_ids(self@, user@, self@.proposals.len() as int)
                },
                skip,
                limit,
            ),
    {
        let ids = self.user_active_proposals(user);
        let ghost all = ids@;
        let n = ids.len();
        let ghost l = if descending {
            reversed(all)
        } else {
            all
        };
        let start = match skip {
            Some(s) => if (s as usize) < n {
                s as usize
            } else {
                n
            },
            None => 0,
        };
        let end = match limit {
            Some(lim) => if (lim as usize) < n - start {
                start + lim as usize
            } else {
                n
            },
            None => n,
        };
        let mut r: Vec<u32> = Vec::new();
        let mut k: usize = start;
        while k < end
            invariant
                all == ids@,
                n == all.len(),
                l == (if descending {
                    reversed(all)
                } else {
                    all
                }),
                start <= k <= end <= n,
                r@ =~= l.subrange(start as int, k as int),
            decreases end - k,
        {
            let id = if descending {
                ids[n - 1 - k]
            } else {
                ids[k]
            };
            r.push(id);
            k += 1;
        }
        r
    }

    /// One page of proposal ids: `skip` passed over (none when `None`), at
    /// most `limit` listed (all when `None`), newest first with `descending`.
    pub fn proposal_ids(&self, skip: Option<u32>, limit: Option<u32>, descending: bool) -> (r: Vec<
        u32,
    >)
        requires
            self.wf(),
        ensures
            r@ == page_of_ids(
                self@.proposals.len() as int,
                or_keep(skip, 0u32) as int,
                or_keep(limit, u32::MAX) as int,
                descending,
            ),
    {
        let n = self.proposals.len();
        let skip_n = match skip {
            Some(s) => s as usize,
            None => 0,
        };
        let limit_n = match limit {
            Some(l) => l as usize,
            None => 0xffff_ffff,
        };
        let start = if skip_n < n { skip_n } else { n };
        let len = if limit_n < n - start { limit_n } else { n - start };
        let ghost page = page_of_ids(n as int, skip_n as int, limit_n as int, descending);
        let mut r: Vec<u32> = Vec::new();
        let mut k: usize = 0;
        while k < len
            invariant
                n == self@.proposals.len(),
                n <= u32::MAX,
                start <= n,
                len <= n - start,
                page.len() == len,
                k <= len,
                page == page_of_ids(n as int, skip_n as int, limit_n as int, descending),
                start == (if skip_n < n { skip_n } else { n }),
                r@ =~= page.take(k as int),
            decreases len - k,
        {
            let id = if descending {
                (n - 1 - start - k) as u32
            } else {
                (start + k) as u32
            };
            r.push(id);
            proof {
                assert(page.take(k + 1) =~= page.take(k as int).push(page[k as int]));
            }
            k += 1;
        }
        proof {
            assert(page.take(len as int) =~= page);
        }
        r
    }
}

/// Where a page of a proposal's voters starts: at the first entry, or just
/// after the entry of the cursor's participant (past the end when the cursor
/// holds no live vote there).
pub open spec fn voters_page_start(votes: Seq<VoteEntry>, after: Option<Seq<char>>) -> int {
    match after {
        None => 0,
        Some(a) => if has_vote_entry(votes, a) {
            (choose|i: int| 0 <= i < votes.len() && votes[i].user@ == a) + 1
        } else {
            votes.len() as int
        },
    }
}

impl CourtState {
    /// One page of the participants holding a live vote on a proposal, with
    /// their vote records, in ledger order: those after the participant
    /// `after` (from the first without a cursor), at most `limit` of them.
    /// Empty when the id does not exist.
    pub fn proposal_voters(&self, proposal_id: u32, after: Option<&String>, limit: Option<u32>) -> (r:
        Vec<VoteEntry>)
        requires
            self.wf(),
        ensures
            proposal_id >= self@.proposals.len() ==> r@.len() == 0,
            proposal_id < self@.proposals.len() ==> ({
                let votes = self@.proposal_votes[proposal_id as int]@;
                let start = voters_page_start(
                    votes,
                    match after {
                        Some(a) => Some(a@),
                        None => None,
                    },
                );
                let rest = votes.len() - start;
                &&& r@.len() == if limit is Some && (limit->Some_0 as int) < rest {
                    limit->Some_0 as int
                } else {
                    rest
                }
                &&& forall|k: int|
                    0 <= k < r@.len() ==> #[trigger] r@[k].user@ == votes[start + k].user@
                        && r@[k].info == votes[start + k].info
            }),
    {
        let mut r: Vec<VoteEntry> = Vec::new();
        if proposal_id as usize >= self.proposal_votes.len() {
            return r;
        }
        let votes = &self.proposal_votes[proposal_id as usize];
        let n = votes.len();
        proof {
            assert(proposal_wf(self@.proposals[proposal_id as int], votes@, self.total_supply));
        }
        let start = match after {
            None => 0,
            Some(a) => match Self::find_vote(votes, a) {
                Some(i) => {
                    proof {
                        let j = choose|j: int| 0 <= j < votes@.len() && votes@[j].user@ == a@;
                        assert(j == i as int);
                    }
                    i + 1
                },
                None => n,
            },
        };
        let rest = n - start;
        let count = match limit {
            Some(l) => if (l as usize) < rest {
                l as usize
            } else {
                rest
            },
            None => rest,
        };
        let mut k: usize = 0;
        while k < count
            invariant
                self.wf(),
                proposal_id < self@.proposals.len(),
                votes@ == self@.proposal_votes[proposal_id as int]@,
                n == votes@.len(),
                start + count <= n,
                k <= count,
                r@.len() == k,
                forall|q: int|
                    0 <= q < k ==> #[trigger] r@[q].user@ == votes@[start + q].user@ && r@[q].info
                        == votes@[start + q].info,
            decreases count - k,
        {
            let e = &votes[start + k];
            r.push(VoteEntry { user: e.user.clone(), info: e.info });
            k += 1;
        }
        r
    }
}

/// The entries (participant, proposal id) of the active-vote index for the
/// proposals below `p`, in increasing proposal id and, within a proposal, in
/// ledger order.
pub open spec fn active_pairs_below(m: CourtModel, p: int) -> Seq<(Seq<char>, u32)>
    decreases p,
{
    if p <= 0 {
        seq![]
    } else {
        active_pairs_below(m, p - 1) + m.proposal_votes[p - 1]@.map_values(
            |e: VoteEntry| (e.user@, (p - 1) as u32),
        )
    }
}

/// The whole active-vote index, in the order of `active_pairs_below`.
pub open spec fn active_pairs(m: CourtModel) -> Seq<(Seq<char>, u32)> {
    active_pairs_below(m, m.proposals.len() as int)
}

/// The ids of the proposals below `p` on which `u` holds a live vote, in
/// increasing order.
pub open spec fn user_active_ids(m: CourtModel, u: Seq<char>, p: int) -> Seq<u32>
    decreases p,
{
    if p <= 0 {
        seq![]
    } else if m.has_active_vote(p - 1, u) {
        user_active_ids(m, u, p - 1).push((p - 1) as u32)
    } else {
        user_active_ids(m, u, p - 1)
    }
}

/// One page of a list: `skip` entries passed over (none without it), then at
/// most `limit` (all without it).
pub open spec fn skip_page<T>(list: Seq<T>, skip: Option<u32>, limit: Option<u32>) -> Seq<T> {
    let start = match skip {
        Some(s) => if s < list.len() {
            s as int
        } else {
            list.len() as int
        },
        None => 0,
    };
    let end = match limit {
        Some(l) => if start + l < list.len() {
            start + l
        } else {
            list.len() as int
        },
        None => list.len() as int,
    };
    list.subrange(start, end)
}

/// The list in the opposite order.
pub open spec fn reversed<T>(list: Seq<T>) -> Seq<T> {
    Seq::new(list.len(), |i: int| list[list.len() - 1 - i])
}

/// Where a page after the cursor `a` starts: just after the first occurrence
/// of `a`, or past the end when the list does not hold it.
pub open spec fn start_after<T>(list: Seq<T>, a: T) -> int {
    if list.contains(a) {
        (choose|i: int| 0 <= i < list.len() && list[i] == a && forall|j: int| 0 <= j < i ==> list[j] != a) + 1
    } else {
        list.len() as int
    }
}

/// One page of a list: the entries after the cursor `after` (from the start
/// without one; empty when the cursor is not in the list), at most `limit`.
pub open spec fn page_after<T>(list: Seq<T>, after: Option<T>, limit: Option<u32>) -> Seq<T> {
    let start = match after {
        None => 0,
        Some(a) => start_after(list, a),
    };
    let end = match limit {
        Some(l) => if start + l < list.len() {
            start + l
        } else {
            list.len() as int
        },
        None => list.len() as int,
    };
    list.subrange(start, end)
}

impl CourtState {
    /// Every entry of the active-vote index as (participant, proposal id), in
    /// increasing proposal id and, within a proposal, in ledger order.
    pub fn active_vote_index(&self) -> (r: Vec<(String, u32)>)
        requires
            self.wf(),
        ensures
            r@.map_values(|x: (String, u32)| (x.0@, x.1)) == active_pairs(self@),
    {
        let mut r: Vec<(String, u32)> = Vec::new();
        let mut p: usize = 0;
        while p < self.proposal_votes.len()
            invariant
                self.wf(),
                p <= self@.proposals.len(),
                r@.map_values(|x: (String, u32)| (x.0@, x.1)) == active_pairs_below(self@, p as int),
            decreases self@.proposals.len() - p,
        {
            let votes = &self.proposal_votes[p];
            let ghost base = r@.map_values(|x: (String, u32)| (x.0@, x.1));
            let mut k: usize = 0;
            while k < votes.len()
                invariant
                    self.wf(),
                    p < self@.proposals.len(),
                    votes@ == self@.proposal_votes[p as int]@,
                    k <= votes@.len(),
                    base == active_pairs_below(self@, p as int),
                    r@.map_values(|x: (String, u32)| (x.0@, x.1)) == base + votes@.take(
                        k as int,
                    ).map_values(|e: VoteEntry| (e.user@, p as u32)),
                decreases votes@.len() - k,
            {
                let ghost old_r = r@;
                let user = votes[k].user.clone();
                assert(user@ == votes@[k as int].user@);
                r.push((user, p as u32));
                proof {
                    assert(r@ == old_r.push((user, p as u32)));
                    assert(r@.map_values(|x: (String, u32)| (x.0@, x.1)) =~= old_r.map_values(
                        |x: (String, u32)| (x.0@, x.1),
                    ).push((votes@[k as int].user@, p as u32)));
                    assert(votes@.take(k + 1) =~= votes@.take(k as int).push(votes@[k as int]));
                    assert(r@.map_values(|x: (String, u32)| (x.0@, x.1)) =~= base + votes@.take(
                        k + 1,
                    ).map_values(|e: VoteEntry| (e.user@, p as u32)));
                }
                k += 1;
            }
            proof {
                assert(votes@.take(votes@.len() as int) =~= votes@);
                assert(active_pairs_below(self@, p + 1) =~= base + votes@.map_values(
                    |e: VoteEntry| (e.user@, p as u32),
                ));
            }
            p += 1;
        }
        r
    }
}

/// The (participant, proposal id) view of index entries.
pub open spec fn pair_views(v: Seq<(String, u32)>) -> Seq<(Seq<char>, u32)> {
    v.map_values(|x: (String, u32)| (x.0@, x.1))
}

/// Where the first entry equal to `(user, id)` stands, plus one; the length
/// when there is none.
fn position_after(list: &Vec<(String, u32)>, user: &String, id: u32) -> (r: usize)
    ensures
        r == start_after(pair_views(list@), (user@, id)),
        r <= list@.len(),
{
    let ghost l = pair_views(list@);
    let mut k: usize = 0;
    while k < list.len()
        invariant
            l == pair_views(list@),
            k <= list@.len(),
            forall|j: int| 0 <= j < k ==> l[j] != (user@, id),
        decreases list@.len() - k,
    {
        if list[k].0 == *user && list[k].1 == id {
            proof {
                assert(l[k as int] == (user@, id));
                assert(l.contains((user@, id)));
                let c = choose|i: int|
                    0 <= i < l.len() && l[i] == (user@, id) && forall|j: int| 0 <= j < i ==> l[j] != (
                        user@,
                        id,
                    );
                assert(0 <= c < l.len() && l[c] == (user@, id) && forall|j: int| 0 <= j < c ==> l[j]
                    != (user@, id));
                assert(c == k as int);
            }
            return k + 1;
        }
        k += 1;
    }
    proof {
        assert(!l.contains((user@, id)));
    }
    list.len()
}

/// The entries in the opposite order.
fn reverse_pairs(full: &Vec<(String, u32)>) -> (r: Vec<(String, u32)>)
    ensures
        pair_views(r@) == reversed(pair_views(full@)),
{
    let ghost all = pair_views(full@);
    let mut rev: Vec<(String, u32)> = Vec::new();
    let n = full.len();
    let mut k: usize = 0;
    while k < n
        invariant
            n == full@.len(),
            all == pair_views(full@),
            k <= n,
            pair_views(rev@) =~= reversed(all).take(k as int),
        decreases n - k,
    {
        let ghost old_rev = rev@;
        let user = full[n - 1 - k].0.clone();
        rev.push((user, full[n - 1 - k].1));
        proof {
            assert(pair_views(rev@) =~= pair_views(old_rev).push(all[n - 1 - k]));
            assert(reversed(all).take(k + 1) =~= reversed(all).take(k as int).push(all[n - 1 - k]));
        }
        k += 1;
    }
    proof {
        assert(reversed(all).take(n as int) =~= reversed(all));
    }
    rev
}

/// One page of the entries, as `page_after` describes it.
fn page_of_pairs(list: &Vec<(String, u32)>, after: &Option<(String, u32)>, limit: Option<u32>) -> (r: Vec<
    (String, u32),
>)
    ensures
        pair_views(r@) == page_after(
            pair_views(list@),
            match after {
                Some(a) => Some((a.0@, a.1)),
                None => None,
            },
            limit,
        ),
{
    let ghost l = pair_views(list@);
    let start = match after {
        None => 0,
        Some(a) => position_after(list, &a.0, a.1),
    };
    let n = list.len();
    let end = match limit {
        Some(lim) => if (lim as usize) < n - start {
            start + lim as usize
        } else {
            n
        },
        None => n,
    };
    let mut r: Vec<(String, u32)> = Vec::new();
    let mut k: usize = start;
    while k < end
        invariant
            l == pair_views(list@),
            n == list@.len(),
            start <= k <= end <= n,
            pair_views(r@) =~= l.subrange(start as int, k as int),
        decreases end - k,
    {
        let ghost old_r = r@;
        let user = list[k].0.clone();
        r.push((user, list[k].1));
        proof {
            assert(pair_views(r@) =~= pair_views(old_r).push(l[k as int]));
        }
        k += 1;
    }
    r
}

impl CourtState {
    /// One page of the active-vote index as (participant, proposal id): the
    /// entries after the cursor `after`, at most `limit`, in the order of
    /// `active_vote_index` or, with `descending`, the opposite one.
    pub fn users_with_active_proposals(
        &self,
        after: Option<(String, u32)>,
        limit: Option<u32>,
        descending: bool,
    ) -> (r: Vec<(String, u32)>)
        requires
            self.wf(),
        ensures
            pair_views(r@) == page_after(
                if descending {
                    reversed(active_pairs(self@))
                } else {
                    active_pairs(self@)
                },
                match after {
                    Some(a) => Some((a.0@, a.1)),
                    None => None,
                },
                limit,
            ),
    {
        let full = self.active_vote_index();
        let list = if descending {
            reverse_pairs(&full)
        } else {
            full
        };
        page_of_pairs(&list, &after, limit)
    }
}

} // verus!
