use vstd::prelude::*;

verus! {

/// The governance parameters. Durations are in seconds, timestamps in
/// milliseconds, percentages in whole percent.
#[derive(Debug, Clone, PartialEq, Eq)]
pub struct CourtAppConfig {
    pub allow_new_proposals: bool,
    pub minimum_vote_proposal_percent: u8,
    pub minimum_vote_turnout_percent: u8,
    pub minimum_vote_pass_percent: u8,
    pub max_proposal_expiry_time_seconds: u32,
    pub execution_expiry_time_seconds: u32,
    pub last_config_change_timestamp_ms: u64,
    pub admin: String,
}

impl CourtAppConfig {
    pub fn allow_new_proposals(&self) -> (r: bool)
        ensures
            r == self.allow_new_proposals,
    {
        self.allow_new_proposals
    }

    pub fn set_allow_new_proposals(&mut self, value: bool)
        ensures
            *final(self) == (CourtAppConfig { allow_new_proposals: value, ..*old(self) }),
    {
        self.allow_new_proposals = value;
    }
}

} // verus!
