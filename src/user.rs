use vstd::prelude::*;

verus! {

/// How a participant voted.
#[derive(Debug, Clone, Copy, PartialEq, Eq, Structural)]
pub enum CourtUserVoteStatus {
    Abstain,
    Approve,
    Oppose,
}

/// A participant's stake.
#[derive(Debug, Clone, Copy, PartialEq, Eq, Structural)]
pub struct CourtUserStats {
    pub staked_votes: u128,
}

/// A participant's vote on one proposal: the weight counted in the tallies the
/// last time the vote was registered, and its direction.
#[derive(Debug, Clone, Copy, PartialEq, Eq, Structural)]
pub struct CourtUserVoteInfo {
    pub active_votes: u128,
    pub vote: CourtUserVoteStatus,
}

impl CourtUserVoteInfo {
    pub fn vote(&self) -> (r: CourtUserVoteStatus)
        ensures
            r == self.vote,
    {
        self.vote
    }

    pub fn set_vote(&mut self, value: CourtUserVoteStatus)
        ensures
            *final(self) == (CourtUserVoteInfo { vote: value, ..*old(self) }),
    {
        self.vote = value;
    }
}

/// The record of a participant who never voted on a proposal.
pub open spec fn no_vote() -> CourtUserVoteInfo {
    CourtUserVoteInfo { active_votes: 0, vote: CourtUserVoteStatus::Abstain }
}

/// One entry of the stake ledger.
#[derive(Debug, Clone)]
pub struct StakeEntry {
    pub user: String,
    pub stats: CourtUserStats,
}

/// One entry of a proposal's vote ledger.
#[derive(Debug, Clone)]
pub struct VoteEntry {
    pub user: String,
    pub info: CourtUserVoteInfo,
}

pub open spec fn stake_keys_unique(s: Seq<StakeEntry>) -> bool {
    forall|i: int, j: int| 0 <= i < j < s.len() ==> s[i].user@ != s[j].user@
}

pub open spec fn vote_keys_unique(s: Seq<VoteEntry>) -> bool {
    forall|i: int, j: int| 0 <= i < j < s.len() ==> s[i].user@ != s[j].user@
}

pub open spec fn has_stake_entry(s: Seq<StakeEntry>, u: Seq<char>) -> bool {
    exists|i: int| 0 <= i < s.len() && s[i].user@ == u
}

pub open spec fn has_vote_entry(s: Seq<VoteEntry>, u: Seq<char>) -> bool {
    exists|i: int| 0 <= i < s.len() && s[i].user@ == u
}

/// The staked amount that the ledger holds for `u`; zero when it holds none.
pub open spec fn stake_in(s: Seq<StakeEntry>, u: Seq<char>) -> u128 {
    if has_stake_entry(s, u) {
        s[choose|i: int| 0 <= i < s.len() && s[i].user@ == u].stats.staked_votes
    } else {
        0
    }
}

/// The vote that the ledger holds for `u`; `no_vote()` when it holds none.
pub open spec fn vote_in(s: Seq<VoteEntry>, u: Seq<char>) -> CourtUserVoteInfo {
    if has_vote_entry(s, u) {
        s[choose|i: int| 0 <= i < s.len() && s[i].user@ == u].info
    } else {
        no_vote()
    }
}

/// What a vote record adds to the tally of direction `d`.
pub open spec fn info_contribution(info: CourtUserVoteInfo, d: CourtUserVoteStatus) -> int {
    if info.vote == d {
        info.active_votes as int
    } else {
        0
    }
}

/// What an entry adds to the tally of direction `d`.
pub open spec fn contribution(e: VoteEntry, d: CourtUserVoteStatus) -> int {
    info_contribution(e.info, d)
}

/// The weight of all entries that vote in direction `d`.
pub open spec fn direction_sum(s: Seq<VoteEntry>, d: CourtUserVoteStatus) -> int
    decreases s.len(),
{
    if s.len() == 0 {
        0
    } else {
        direction_sum(s.drop_last(), d) + contribution(s.last(), d)
    }
}

/// The weight of all entries, whatever their direction.
pub open spec fn weight_sum(s: Seq<VoteEntry>) -> int
    decreases s.len(),
{
    if s.len() == 0 {
        0
    } else {
        weight_sum(s.drop_last()) + s.last().info.active_votes
    }
}

pub proof fn lemma_stake_at(s: Seq<StakeEntry>, i: int)
    requires
        stake_keys_unique(s),
        0 <= i < s.len(),
    ensures
        stake_in(s, s[i].user@) == s[i].stats.staked_votes,
{
    assert(has_stake_entry(s, s[i].user@));
}

pub proof fn lemma_vote_at(s: Seq<VoteEntry>, i: int)
    requires
        vote_keys_unique(s),
        0 <= i < s.len(),
    ensures
        vote_in(s, s[i].user@) == s[i].info,
{
    assert(has_vote_entry(s, s[i].user@));
}

/// Replacing the value of one key leaves every other key's stake as it was.
pub proof fn lemma_stake_update(s: Seq<StakeEntry>, i: int, e: StakeEntry)
    requires
        stake_keys_unique(s),
        0 <= i < s.len(),
        e.user@ == s[i].user@,
    ensures
        stake_keys_unique(s.update(i, e)),
        forall|u: Seq<char>|
            #[trigger] stake_in(s.update(i, e), u) == if u == e.user@ {
                e.stats.staked_votes
            } else {
                stake_in(s, u)
            },
        forall|u: Seq<char>|
            #[trigger] has_stake_entry(s.update(i, e), u) == has_stake_entry(s, u),
{
    let t = s.update(i, e);
    assert forall|u: Seq<char>| #[trigger]
        stake_in(t, u) == if u == e.user@ {
            e.stats.staked_votes
        } else {
            stake_in(s, u)
        } by {
        if u == e.user@ {
            lemma_stake_at(t, i);
        } else if has_stake_entry(s, u) {
            let j = choose|j: int| 0 <= j < s.len() && s[j].user@ == u;
            lemma_stake_at(s, j);
            lemma_stake_at(t, j);
        } else {
            assert(!has_stake_entry(t, u));
        }
    }
    assert forall|u: Seq<char>| #[trigger] has_stake_entry(t, u) == has_stake_entry(s, u) by {
        if has_stake_entry(s, u) {
            let j = choose|j: int| 0 <= j < s.len() && s[j].user@ == u;
            assert(t[j].user@ == u);
        }
        if has_stake_entry(t, u) {
            let j = choose|j: int| 0 <= j < t.len() && t[j].user@ == u;
            assert(s[j].user@ == u);
        }
    }
}

/// Adding a new key gives it its stake and leaves every other key's as it was.
pub proof fn lemma_stake_push(s: Seq<StakeEntry>, e: StakeEntry)
    requires
        stake_keys_unique(s),
        !has_stake_entry(s, e.user@),
    ensures
        stake_keys_unique(s.push(e)),
        forall|u: Seq<char>|
            #[trigger] stake_in(s.push(e), u) == if u == e.user@ {
                e.stats.staked_votes
            } else {
                stake_in(s, u)
            },
{
    let t = s.push(e);
    assert forall|i: int, j: int| 0 <= i < j < t.len() implies t[i].user@ != t[j].user@ by {
        if j == s.len() {
            assert(s[i].user@ != e.user@);
        }
    }
    assert forall|u: Seq<char>| #[trigger]
        stake_in(t, u) == if u == e.user@ {
            e.stats.staked_votes
        } else {
            stake_in(s, u)
        } by {
        if u == e.user@ {
            lemma_stake_at(t, s.len() as int);
        } else if has_stake_entry(s, u) {
            let j = choose|j: int| 0 <= j < s.len() && s[j].user@ == u;
            lemma_stake_at(s, j);
            lemma_stake_at(t, j);
        } else {
            assert(!has_stake_entry(t, u));
        }
    }
}

/// Replacing the vote of one key leaves every other key's vote as it was.
pub proof fn lemma_vote_update(s: Seq<VoteEntry>, i: int, e: VoteEntry)
    requires
        vote_keys_unique(s),
        0 <= i < s.len(),
        e.user@ == s[i].user@,
    ensures
        vote_keys_unique(s.update(i, e)),
        forall|u: Seq<char>|
            #[trigger] vote_in(s.update(i, e), u) == if u == e.user@ {
                e.info
            } else {
                vote_in(s, u)
            },
        forall|u: Seq<char>|
            #[trigger] has_vote_entry(s.update(i, e), u) == has_vote_entry(s, u),
{
    let t = s.update(i, e);
    assert forall|u: Seq<char>| #[trigger]
        vote_in(t, u) == if u == e.user@ {
            e.info
        } else {
            vote_in(s, u)
        } by {
        if u == e.user@ {
            lemma_vote_at(t, i);
        } else if has_vote_entry(s, u) {
            let j = choose|j: int| 0 <= j < s.len() && s[j].user@ == u;
            lemma_vote_at(s, j);
            lemma_vote_at(t, j);
        } else {
            assert(!has_vote_entry(t, u));
        }
    }
    assert forall|u: Seq<char>| #[trigger] has_vote_entry(t, u) == has_vote_entry(s, u) by {
        if has_vote_entry(s, u) {
            let j = choose|j: int| 0 <= j < s.len() && s[j].user@ == u;
            assert(t[j].user@ == u);
        }
        if has_vote_entry(t, u) {
            let j = choose|j: int| 0 <= j < t.len() && t[j].user@ == u;
            assert(s[j].user@ == u);
        }
    }
}

/// Adding a vote for a new key leaves every other key's vote as it was.
pub proof fn lemma_vote_push(s: Seq<VoteEntry>, e: VoteEntry)
    requires
        vote_keys_unique(s),
        !has_vote_entry(s, e.user@),
    ensures
        vote_keys_unique(s.push(e)),
        forall|u: Seq<char>|
            #[trigger] vote_in(s.push(e), u) == if u == e.user@ {
                e.info
            } else {
                vote_in(s, u)
            },
        forall|u: Seq<char>|
            #[trigger] has_vote_entry(s.push(e), u) == (has_vote_entry(s, u) || u == e.user@),
        forall|d: CourtUserVoteStatus|
            #[trigger] direction_sum(s.push(e), d) == direction_sum(s, d) + contribution(e, d),
        weight_sum(s.push(e)) == weight_sum(s) + e.info.active_votes,
{
    let t = s.push(e);
    assert(t.drop_last() =~= s);
    assert forall|i: int, j: int| 0 <= i < j < t.len() implies t[i].user@ != t[j].user@ by {
        if j == s.len() {
            assert(s[i].user@ != e.user@);
        }
    }
    assert forall|u: Seq<char>| #[trigger]
        vote_in(t, u) == if u == e.user@ {
            e.info
        } else {
            vote_in(s, u)
        } by {
        if u == e.user@ {
            lemma_vote_at(t, s.len() as int);
        } else if has_vote_entry(s, u) {
            let j = choose|j: int| 0 <= j < s.len() && s[j].user@ == u;
            lemma_vote_at(s, j);
            lemma_vote_at(t, j);
        } else {
            assert(!has_vote_entry(t, u));
        }
    }
    assert forall|u: Seq<char>| #[trigger]
        has_vote_entry(t, u) == (has_vote_entry(s, u) || u == e.user@) by {
        if has_vote_entry(s, u) {
            let j = choose|j: int| 0 <= j < s.len() && s[j].user@ == u;
            assert(t[j].user@ == u);
        }
        if u == e.user@ {
            assert(t[s.len() as int].user@ == u);
        }
    }
}

/// Replacing one entry changes each direction's sum by the difference of the
/// two entries' contributions.
pub proof fn lemma_direction_sum_update(
    s: Seq<VoteEntry>,
    i: int,
    e: VoteEntry,
    d: CourtUserVoteStatus,
)
    requires
        0 <= i < s.len(),
    ensures
        direction_sum(s.update(i, e), d) == direction_sum(s, d) - contribution(s[i], d)
            + contribution(e, d),
        weight_sum(s.update(i, e)) == weight_sum(s) - s[i].info.active_votes
            + e.info.active_votes,
    decreases s.len(),
{
    let t = s.update(i, e);
    if i == s.len() - 1 {
        assert(t.drop_last() =~= s.drop_last());
    } else {
        assert(t.drop_last() =~= s.drop_last().update(i, e));
        lemma_direction_sum_update(s.drop_last(), i, e, d);
    }
}

/// Removing one entry takes its contribution off each direction's sum.
pub proof fn lemma_direction_sum_remove(s: Seq<VoteEntry>, i: int, d: CourtUserVoteStatus)
    requires
        0 <= i < s.len(),
    ensures
        direction_sum(s.remove(i), d) == direction_sum(s, d) - contribution(s[i], d),
        weight_sum(s.remove(i)) == weight_sum(s) - s[i].info.active_votes,
    decreases s.len(),
{
    let t = s.remove(i);
    if i == s.len() - 1 {
        assert(t =~= s.drop_last());
    } else {
        assert(t.drop_last() =~= s.drop_last().remove(i));
        lemma_direction_sum_remove(s.drop_last(), i, d);
    }
}

/// No direction's sum is negative.
pub proof fn lemma_direction_sum_nonneg(s: Seq<VoteEntry>, d: CourtUserVoteStatus)
    ensures
        direction_sum(s, d) >= 0,
        weight_sum(s) >= 0,
    decreases s.len(),
{
    if s.len() > 0 {
        lemma_direction_sum_nonneg(s.drop_last(), d);
    }
}

/// An entry's contribution never exceeds the sum of its direction.
pub proof fn lemma_contribution_bounded(s: Seq<VoteEntry>, i: int, d: CourtUserVoteStatus)
    requires
        0 <= i < s.len(),
    ensures
        contribution(s[i], d) <= direction_sum(s, d),
{
    lemma_direction_sum_remove(s, i, d);
    lemma_direction_sum_nonneg(s.remove(i), d);
}

/// The weight of all entries is the sum of the three directions' weights.
pub proof fn lemma_weight_is_direction_total(s: Seq<VoteEntry>)
    ensures
        weight_sum(s) == direction_sum(s, CourtUserVoteStatus::Approve) + direction_sum(
            s,
            CourtUserVoteStatus::Oppose,
        ) + direction_sum(s, CourtUserVoteStatus::Abstain),
    decreases s.len(),
{
    if s.len() > 0 {
        lemma_weight_is_direction_total(s.drop_last());
    }
}

/// Removing a key leaves every other key's vote as it was and drops that key.
pub proof fn lemma_vote_remove(s: Seq<VoteEntry>, i: int)
    requires
        vote_keys_unique(s),
        0 <= i < s.len(),
    ensures
        vote_keys_unique(s.remove(i)),
        forall|u: Seq<char>|
            #[trigger] vote_in(s.remove(i), u) == if u == s[i].user@ {
                no_vote()
            } else {
                vote_in(s, u)
            },
        forall|u: Seq<char>|
            #[trigger] has_vote_entry(s.remove(i), u) == (has_vote_entry(s, u) && u
                != s[i].user@),
{
    let t = s.remove(i);
    assert forall|a: int, b: int| 0 <= a < b < t.len() implies t[a].user@ != t[b].user@ by {
        let a2 = if a < i { a } else { a + 1 };
        let b2 = if b < i { b } else { b + 1 };
        assert(t[a] == s[a2] && t[b] == s[b2]);
    }
    assert forall|u: Seq<char>| #[trigger]
        has_vote_entry(t, u) == (has_vote_entry(s, u) && u != s[i].user@) by {
        if has_vote_entry(t, u) {
            let j = choose|j: int| 0 <= j < t.len() && t[j].user@ == u;
            let j2 = if j < i { j } else { j + 1 };
            assert(t[j] == s[j2]);
        }
        if has_vote_entry(s, u) && u != s[i].user@ {
            let j = choose|j: int| 0 <= j < s.len() && s[j].user@ == u;
            if j < i {
                assert(t[j] == s[j]);
            } else {
                assert(t[j - 1] == s[j]);
            }
        }
    }
    assert forall|u: Seq<char>| #[trigger]
        vote_in(t, u) == if u == s[i].user@ {
            no_vote()
        } else {
            vote_in(s, u)
        } by {
        if u != s[i].user@ && has_vote_entry(s, u) {
            let j = choose|j: int| 0 <= j < s.len() && s[j].user@ == u;
            lemma_vote_at(s, j);
            let j2 = if j < i { j } else { j - 1 };
            assert(t[j2] == s[j]);
            lemma_vote_at(t, j2);
        }
    }
}

} // verus!
