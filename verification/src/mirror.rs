//! Records of the chain mirror: validators, governance proposals and
//! delegations, as they are cached and served.

use vstd::prelude::*;

verus! {

/// Number of seconds for which a cached record is served before it is
/// fetched anew.
pub const CACHE_DURATION: u64 = 300;

/// The status of a proposal that is in its voting period.
pub const PROPOSAL_STATUS_VOTING: i32 = 2;

/// The status of a validator that is bonded.
pub const VALIDATOR_STATUS_BONDED: i32 = 3;

/// `std::time::SystemTime`, carried through opaquely: nothing is read from
/// a value of it and nothing is stated of one.
#[verifier::external_type_specification]
#[verifier::external_body]
pub struct ExSystemTime(std::time::SystemTime);

/// A governance proposal.
#[derive(Clone, Debug)]
pub struct ProposalInfo {
    pub proposal_id: u64,
    pub content: Option<ProposalContent>,
    pub status: i32,
    pub final_tally_result: Option<TallyResult>,
    pub submit_time: Option<String>,
    pub deposit_end_time: Option<String>,
    pub total_deposit: Vec<String>,
    pub voting_start_time: Option<String>,
    pub voting_end_time: Option<String>,
    /// When the record was fetched, in seconds since the epoch.
    pub last_updated: u64,
}

/// What a proposal proposes.
#[derive(Clone, Debug)]
pub struct ProposalContent {
    pub type_url: String,
    pub title: String,
    pub description: String,
    pub value: Vec<u8>,
}

/// The votes on a proposal.
#[derive(Clone, Debug)]
pub struct TallyResult {
    pub yes: String,
    pub abstain: String,
    pub no: String,
    pub no_with_veto: String,
}

/// A change of one parameter that a proposal asks for.
#[derive(Clone, Debug)]
pub struct ParamChange {
    pub subspace: String,
    pub key: String,
    pub value: String,
}

/// The plan of an upgrade that a proposal asks for.
#[derive(Clone, Debug)]
pub struct UpgradePlan {
    pub name: String,
    pub height: i64,
    pub info: String,
}

/// A validator.
#[derive(Clone, Debug)]
pub struct ValidatorInfo {
    pub operator_address: String,
    pub consensus_pubkey: Option<String>,
    pub jailed: bool,
    pub status: i32,
    pub tokens: String,
    pub delegator_shares: String,
    pub description: Option<ValidatorDescription>,
    pub unbonding_height: i64,
    pub unbonding_time: Option<std::time::SystemTime>,
    pub commission: Option<String>,
    pub min_self_delegation: String,
    /// When the record was fetched, in seconds since the epoch.
    pub last_updated: u64,
}

/// How a validator describes itself.
#[derive(Clone, Debug)]
pub struct ValidatorDescription {
    pub moniker: String,
    pub identity: String,
    pub website: String,
    pub security_contact: String,
    pub details: String,
}

/// What is served for one delegator.
#[derive(Clone, Debug)]
pub struct DelegatorResponse {
    pub delegations: Vec<DelegationResponse>,
    pub unbonding_delegations: Option<Vec<String>>,
    pub rewards: RewardsResponse,
}

/// One delegation and its balance.
#[derive(Clone, Debug)]
pub struct DelegationResponse {
    pub delegation: DelegationInfo,
    pub balance: Balance,
}

/// A delegation of one delegator to one validator.
#[derive(Clone, Debug)]
pub struct DelegationInfo {
    pub delegator_address: String,
    pub validator_address: String,
    pub shares: String,
    /// When the record was fetched, in seconds since the epoch.
    pub last_updated: u64,
}

/// An amount of one denomination.
#[derive(Clone, Debug)]
pub struct Balance {
    pub denom: String,
    pub amount: String,
}

/// The rewards of one delegator.
#[derive(Clone, Debug)]
pub struct RewardsResponse {
    pub rewards: Vec<ValidatorReward>,
    pub total: Vec<Balance>,
}

/// The rewards that one validator owes.
#[derive(Clone, Debug)]
pub struct ValidatorReward {
    pub validator_address: String,
    pub reward: Vec<Balance>,
}

/// The query of the validators endpoint.
#[derive(Clone, Debug)]
pub struct ValidatorQuery {
    /// Asks for the active validators only, or for the others only.
    pub active: Option<bool>,
    /// Asks for the validator of this operator address only.
    pub operator_address: Option<String>,
}

/// The query of the proposals endpoint.
#[derive(Clone, Debug)]
pub struct ProposalQuery {
    /// Asks for the proposals of this status only.
    pub status: Option<i32>,
    /// Asks for the active proposals only, or for the others only.
    pub active: Option<bool>,
}

/// The query of the delegations endpoint.
#[derive(Clone, Debug)]
pub struct DelegatorQuery {
    pub address: String,
}

impl ProposalInfo {
    /// Whether the proposal is in its voting period.
    pub open spec fn spec_is_active(&self) -> bool {
        self.status == PROPOSAL_STATUS_VOTING
    }

    /// Whether the proposal is in its voting period.
    #[verifier::when_used_as_spec(spec_is_active)]
    pub fn is_active(&self) -> (r: bool)
        ensures
            r == self.spec_is_active(),
    {
        self.status == PROPOSAL_STATUS_VOTING
    }
}

impl ValidatorInfo {
    /// Whether the validator is bonded and not jailed.
    pub open spec fn spec_is_active(&self) -> bool {
        self.status == VALIDATOR_STATUS_BONDED && !self.jailed
    }

    /// Whether the validator is bonded and not jailed.
    #[verifier::when_used_as_spec(spec_is_active)]
    pub fn is_active(&self) -> (r: bool)
        ensures
            r == self.spec_is_active(),
    {
        self.status == VALIDATOR_STATUS_BONDED && !self.jailed
    }
}

impl ProposalQuery {
    /// Whether the proposal `p` answers the query: where the query names a
    /// status, the proposal has it; else the proposal passes the filter on
    /// activity.
    pub open spec fn admits(&self, p: &ProposalInfo) -> bool {
        match self.status {
            Some(status) => p.status == status,
            None => passes(p.spec_is_active(), self.active),
        }
    }

    /// Whether the proposal `p` answers the query.
    pub fn is_admitted(&self, p: &ProposalInfo) -> (r: bool)
        ensures
            r == self.admits(p),
    {
        match self.status {
            Some(status) => p.status == status,
            None => is_served(p.is_active(), self.active),
        }
    }
}

impl ValidatorQuery {
    /// Whether the validator `v` answers the query: where the query names an
    /// operator address, the validator has it; else the validator passes the
    /// filter on activity.
    pub open spec fn admits(&self, v: &ValidatorInfo) -> bool {
        match self.operator_address {
            Some(address) => v.operator_address@ == address@,
            None => passes(v.spec_is_active(), self.active),
        }
    }

    /// Whether the validator `v` answers the query.
    pub fn is_admitted(&self, v: &ValidatorInfo) -> (r: bool)
        ensures
            r == self.admits(v),
    {
        match &self.operator_address {
            Some(address) => v.operator_address == *address,
            None => is_served(v.is_active(), self.active),
        }
    }
}

/// What to do on a request for a cached record.
#[derive(Clone, Copy, Debug, PartialEq, Eq, Structural)]
pub enum CacheAction {
    /// Serve the cached record.
    Serve,
    /// Fetch the record anew, cache it and serve it.
    Refresh,
}

/// Whether a record fetched at `last_updated` may still be served at `now`:
/// its age is below `ttl`. Times are in seconds since the epoch.
pub fn cache_is_fresh(now: u64, last_updated: u64, ttl: u64) -> (fresh: bool)
    requires
        last_updated <= now,
    ensures
        fresh == (now - last_updated < ttl),
{
    now - last_updated < ttl
}

/// Decides between serving what is cached and fetching anew: a record is
/// served while its age is below `ttl`; without a cached record, or with one
/// that is older, it is fetched.
pub fn cache_action(cached_at: Option<u64>, now: u64, ttl: u64) -> (action: CacheAction)
    requires
        cached_at.is_some() ==> cached_at.unwrap() <= now,
    ensures
        action == match cached_at {
            Some(at) => if now - at < ttl {
                CacheAction::Serve
            } else {
                CacheAction::Refresh
            },
            None => CacheAction::Refresh,
        },
{
    match cached_at {
        Some(at) => if cache_is_fresh(now, at, ttl) {
            CacheAction::Serve
        } else {
            CacheAction::Refresh
        },
        None => CacheAction::Refresh,
    }
}

/// Whether a record is served under the filter `active_only`: every record
/// without a filter, else the records whose activity is what the filter asks for.
pub open spec fn passes(active: bool, active_only: Option<bool>) -> bool {
    match active_only {
        Some(wanted) => active == wanted,
        None => true,
    }
}

/// Whether a record is served under the filter `active_only`.
pub fn is_served(active: bool, active_only: Option<bool>) -> (r: bool)
    ensures
        r == passes(active, active_only),
{
    match active_only {
        Some(wanted) => active == wanted,
        None => true,
    }
}

} // verus!
