//! The consensus layer: validators weighted by stake vote on proposals, and a
//! proposal passes once the stake behind it reaches the quorum threshold with
//! at least half of all stake taking part.
use vstd::prelude::*;

use crate::clock::now_secs;
use crate::execution::{changes_view, clone_changes, AtomicDecisionUnit, ExecutionResult};
use crate::state::{changes_fit, StateStore};
use crate::text::str_eq;

verus! {

/// A validator and the stake it votes with.
#[derive(Debug)]
pub struct Validator {
    pub id: String,
    pub public_key: String,
    pub stake: u64,
    pub reputation: u64,
}

impl Clone for Validator {
    fn clone(&self) -> (r: Self)
        ensures
            r == *self,
    {
        Validator {
            id: self.id.clone(),
            public_key: self.public_key.clone(),
            stake: self.stake,
            reputation: self.reputation,
        }
    }
}

/// Clones a list of validators.
pub fn clone_validators(v: &Vec<Validator>) -> (r: Vec<Validator>)
    ensures
        r@ == v@,
{
    let r = v.clone();
    assert(r@ =~= v@);
    r
}

/// A validator's vote on a proposal.
#[derive(Debug)]
pub struct Vote {
    pub validator_id: String,
    pub proposal_hash: String,
    pub vote: bool,
    pub signature: String,
}

impl Clone for Vote {
    fn clone(&self) -> (r: Self)
        ensures
            r == *self,
    {
        Vote {
            validator_id: self.validator_id.clone(),
            proposal_hash: self.proposal_hash.clone(),
            vote: self.vote,
            signature: self.signature.clone(),
        }
    }
}

/// What a proposal asks for.
#[derive(Debug)]
pub enum ProposalType {
    StateUpdate(String),
    RuleChange(String),
    ValidatorChange(String),
    ConstitutionUpdate(String),
}

impl Clone for ProposalType {
    fn clone(&self) -> (r: Self)
        ensures
            r == *self,
    {
        match self {
            ProposalType::StateUpdate(s) => ProposalType::StateUpdate(s.clone()),
            ProposalType::RuleChange(s) => ProposalType::RuleChange(s.clone()),
            ProposalType::ValidatorChange(s) => ProposalType::ValidatorChange(s.clone()),
            ProposalType::ConstitutionUpdate(s) => ProposalType::ConstitutionUpdate(s.clone()),
        }
    }
}

/// A proposal with the votes cast on it.
#[derive(Debug)]
pub struct ConsensusProposal {
    pub id: String,
    pub proposal_type: ProposalType,
    pub content: String,
    pub proposer: String,
    pub votes: Vec<Vote>,
    pub created_at: u64,
    pub expires_at: u64,
}

/// A proposal with its votes read as a sequence.
pub struct ProposalView {
    pub id: String,
    pub proposal_type: ProposalType,
    pub content: String,
    pub proposer: String,
    pub votes: Seq<Vote>,
    pub created_at: u64,
    pub expires_at: u64,
}

impl View for ConsensusProposal {
    type V = ProposalView;

    open spec fn view(&self) -> ProposalView {
        ProposalView {
            id: self.id,
            proposal_type: self.proposal_type,
            content: self.content,
            proposer: self.proposer,
            votes: self.votes@,
            created_at: self.created_at,
            expires_at: self.expires_at,
        }
    }
}

/// The views of a list of proposals.
pub open spec fn proposals_view(ps: Seq<ConsensusProposal>) -> Seq<ProposalView> {
    ps.map_values(|p: ConsensusProposal| p@)
}

impl Clone for ConsensusProposal {
    fn clone(&self) -> (r: Self)
        ensures
            r@ == self@,
    {
        let votes = self.votes.clone();
        assert(votes@ =~= self.votes@);
        ConsensusProposal {
            id: self.id.clone(),
            proposal_type: self.proposal_type.clone(),
            content: self.content.clone(),
            proposer: self.proposer.clone(),
            votes,
            created_at: self.created_at,
            expires_at: self.expires_at,
        }
    }
}

/// The consensus engine.
#[derive(Debug)]
pub struct ConsensusEngine {
    pub validators: Vec<Validator>,
    pub proposals: Vec<ConsensusProposal>,
    /// Percentage of all stake that must support a proposal.
    pub quorum_threshold: u64,
    pub state_store: StateStore,
}

/// Where a proposal stands.
#[derive(Debug, Clone, Copy, PartialEq, Eq, Structural)]
pub enum ProposalStatus {
    Approved,
    Rejected,
    Pending,
    NotFound,
}

/// Why a consensus operation failed.
#[derive(Debug, Clone, Copy, PartialEq, Eq, Structural)]
pub enum ConsensusError {
    InvalidProposal,
    UnauthorizedVoter,
    DuplicateVote,
    ProposalNotFound,
    ProposalPending,
    ProposalRejected,
    StateUpdateError,
    RuleChangeError,
    ValidatorChangeError,
    ConstitutionUpdateError,
}

impl ConsensusError {
    /// The error's message.
    pub fn to_string(&self) -> (r: String)
        ensures
            r@ == match self {
                ConsensusError::InvalidProposal => "Invalid proposal"@,
                ConsensusError::UnauthorizedVoter => "Unauthorized voter"@,
                ConsensusError::DuplicateVote => "Duplicate vote"@,
                ConsensusError::ProposalNotFound => "Proposal not found"@,
                ConsensusError::ProposalPending => "Proposal still pending"@,
                ConsensusError::ProposalRejected => "Proposal rejected"@,
                ConsensusError::StateUpdateError => "State update error"@,
                ConsensusError::RuleChangeError => "Rule change error"@,
                ConsensusError::ValidatorChangeError => "Validator change error"@,
                ConsensusError::ConstitutionUpdateError => "Constitution update error"@,
            },
    {
        match self {
            ConsensusError::InvalidProposal => String::from_str("Invalid proposal"),
            ConsensusError::UnauthorizedVoter => String::from_str("Unauthorized voter"),
            ConsensusError::DuplicateVote => String::from_str("Duplicate vote"),
            ConsensusError::ProposalNotFound => String::from_str("Proposal not found"),
            ConsensusError::ProposalPending => String::from_str("Proposal still pending"),
            ConsensusError::ProposalRejected => String::from_str("Proposal rejected"),
            ConsensusError::StateUpdateError => String::from_str("State update error"),
            ConsensusError::RuleChangeError => String::from_str("Rule change error"),
            ConsensusError::ValidatorChangeError => String::from_str("Validator change error"),
            ConsensusError::ConstitutionUpdateError => String::from_str("Constitution update error"),
        }
    }
}

// ---------------------------------------------------------------------------
// The model of stake and votes.
// ---------------------------------------------------------------------------

/// Whether some validator has this id.
pub open spec fn is_validator(vs: Seq<Validator>, id: Seq<char>) -> bool {
    exists|i: int| 0 <= i < vs.len() && (#[trigger] vs[i]).id@ == id
}

/// The stake of the first validator with this id, if any.
pub open spec fn stake_of(vs: Seq<Validator>, id: Seq<char>) -> Option<u64>
    decreases vs.len(),
{
    if vs.len() == 0 {
        None
    } else if vs[0].id@ == id {
        Some(vs[0].stake)
    } else {
        stake_of(vs.drop_first(), id)
    }
}

/// The stake of all validators together.
pub open spec fn total_stake(vs: Seq<Validator>) -> nat
    decreases vs.len(),
{
    if vs.len() == 0 {
        0
    } else {
        total_stake(vs.drop_last()) + vs.last().stake as nat
    }
}

/// The stake behind the votes (only `yes` votes if `only_yes`): each vote
/// counts the stake of the first validator with the voter's id; votes from
/// unknown voters count nothing.
pub open spec fn votes_stake(votes: Seq<Vote>, vs: Seq<Validator>, only_yes: bool) -> nat
    decreases votes.len(),
{
    if votes.len() == 0 {
        0
    } else {
        let v = votes.last();
        let add: nat = if (!only_yes || v.vote) && stake_of(vs, v.validator_id@) is Some {
            stake_of(vs, v.validator_id@)->0 as nat
        } else {
            0
        };
        votes_stake(votes.drop_last(), vs, only_yes) + add
    }
}

/// The position of the first proposal with this id, if any.
pub open spec fn proposal_index(ps: Seq<ProposalView>, id: Seq<char>) -> Option<int>
    decreases ps.len(),
{
    if ps.len() == 0 {
        None
    } else if ps[0].id@ == id {
        Some(0)
    } else {
        match proposal_index(ps.drop_first(), id) {
            Some(i) => Some(i + 1),
            None => None,
        }
    }
}

pub proof fn lemma_proposal_index(ps: Seq<ProposalView>, id: Seq<char>)
    ensures
        match proposal_index(ps, id) {
            Some(i) => 0 <= i < ps.len() && ps[i].id@ == id
                && forall|j: int| 0 <= j < i ==> (#[trigger] ps[j]).id@ != id,
            None => forall|j: int| 0 <= j < ps.len() ==> (#[trigger] ps[j]).id@ != id,
        },
    decreases ps.len(),
{
    if ps.len() > 0 && ps[0].id@ != id {
        lemma_proposal_index(ps.drop_first(), id);
        match proposal_index(ps.drop_first(), id) {
            Some(i) => {
                assert forall|j: int| 0 <= j < i + 1 implies (#[trigger] ps[j]).id@ != id by {
                    if j > 0 {
                        assert(ps[j] == ps.drop_first()[j - 1]);
                    }
                }
            },
            None => {
                assert forall|j: int| 0 <= j < ps.len() implies (#[trigger] ps[j]).id@ != id by {
                    if j > 0 {
                        assert(ps[j] == ps.drop_first()[j - 1]);
                    }
                }
            },
        }
    }
}

/// The percentage `part * 100 / whole`, or 0 when there is no stake at all.
pub open spec fn percent_of(part: nat, whole: nat) -> nat {
    if whole > 0 { (part * 100) / whole } else { 0 }
}

/// The status of the proposal with this id.
pub open spec fn status_of(e: ConsensusEngine, id: Seq<char>) -> ProposalStatus {
    match proposal_index(proposals_view(e.proposals@), id) {
        None => ProposalStatus::NotFound,
        Some(i) => {
            let p = e.proposals@[i]@;
            let total = total_stake(e.validators@);
            let support = percent_of(votes_stake(p.votes, e.validators@, true), total);
            if support >= e.quorum_threshold {
                if percent_of(votes_stake(p.votes, e.validators@, false), total) >= 50 {
                    ProposalStatus::Approved
                } else {
                    ProposalStatus::Pending
                }
            } else {
                ProposalStatus::Rejected
            }
        },
    }
}

/// A whole-percent share reaches a bar exactly when the part times 100
/// reaches the bar times the whole.
proof fn lemma_share_reaches(part: int, whole: int, bar: int)
    requires
        part >= 0,
        whole > 0,
        bar >= 0,
    ensures
        (part * 100) / whole >= bar <==> part * 100 >= bar * whole,
{
    let x = part * 100;
    let q = x / whole;
    vstd::arithmetic::div_mod::lemma_fundamental_div_mod(x, whole);
    vstd::arithmetic::div_mod::lemma_mod_bound(x, whole);
    if q >= bar {
        assert(whole * q >= whole * bar) by (nonlinear_arith)
            requires
                q >= bar,
                whole > 0;
    } else {
        assert(whole * q + whole <= whole * bar) by (nonlinear_arith)
            requires
                q + 1 <= bar,
                whole > 0;
    }
    assert(bar * whole == whole * bar) by (nonlinear_arith);
}

/// A known proposal is decided by the stake voting yes, as a share of all
/// validators' stake: when the yes stake times 100 falls short of the quorum
/// threshold times the total stake (or there is no stake while the threshold
/// is above 0), it is Rejected; when it reaches it, with some stake, it is
/// Approved if the stake that voted at all is at least half of the total,
/// and Pending otherwise.
pub proof fn lemma_status_rejects_below_threshold(e: ConsensusEngine, id: Seq<char>)
    requires
        proposal_index(proposals_view(e.proposals@), id) is Some,
    ensures
        ({
            let i = proposal_index(proposals_view(e.proposals@), id)->Some_0;
            let p = e.proposals@[i]@;
            let total = total_stake(e.validators@);
            let yes = votes_stake(p.votes, e.validators@, true);
            &&& yes * 100 < e.quorum_threshold * total ==> status_of(e, id) == ProposalStatus::Rejected
            &&& total == 0 && e.quorum_threshold > 0 ==> status_of(e, id) == ProposalStatus::Rejected
            &&& total > 0 && yes * 100 >= e.quorum_threshold * total ==>
                (status_of(e, id) == ProposalStatus::Approved || status_of(e, id) == ProposalStatus::Pending)
            &&& status_of(e, id) == ProposalStatus::Approved ==> yes * 100 >= e.quorum_threshold * total
            &&& total > 0 && yes * 100 >= e.quorum_threshold * total ==> (status_of(e, id) == ProposalStatus::Approved
                <==> votes_stake(p.votes, e.validators@, false) * 100 >= 50 * total)
        }),
{
    let i = proposal_index(proposals_view(e.proposals@), id)->Some_0;
    let p = e.proposals@[i]@;
    let total = total_stake(e.validators@);
    let yes = votes_stake(p.votes, e.validators@, true);
    if total > 0 {
        lemma_share_reaches(yes as int, total as int, e.quorum_threshold as int);
        lemma_share_reaches(votes_stake(p.votes, e.validators@, false) as int, total as int, 50);
    } else {
        assert(e.quorum_threshold * total == 0) by (nonlinear_arith)
            requires
                total == 0;
    }
}

/// Whether computing the status of this proposal stays within `u64`: the
/// sum of all stake, the supporting stake times 100, and (when the support
/// suffices) the participating stake times 100.
pub open spec fn status_fits(e: ConsensusEngine, id: Seq<char>) -> bool {
    match proposal_index(proposals_view(e.proposals@), id) {
        None => true,
        Some(i) => {
            let p = e.proposals@[i]@;
            let total = total_stake(e.validators@);
            let yes = votes_stake(p.votes, e.validators@, true);
            &&& total <= u64::MAX
            &&& yes * 100 <= u64::MAX
            &&& (percent_of(yes, total) >= e.quorum_threshold ==> votes_stake(p.votes, e.validators@, false) * 100 <= u64::MAX)
        },
    }
}

/// No validator has voted twice on any proposal.
pub open spec fn votes_distinct(ps: Seq<ProposalView>) -> bool {
    forall|i: int, a: int, b: int|
        0 <= i < ps.len() && 0 <= a < b < ps[i].votes.len() ==>
            (#[trigger] ps[i].votes[a]).validator_id@ != (#[trigger] ps[i].votes[b]).validator_id@
}

/// Whether the proposal may be accepted at time `now`: it has not expired and
/// its proposer is a validator.
pub open spec fn proposal_valid(vs: Seq<Validator>, p: ConsensusProposal, now: u64) -> bool {
    now <= p.expires_at && is_validator(vs, p.proposer@)
}

/// The proposals without those with this id.
pub open spec fn without_id(ps: Seq<ProposalView>, id: Seq<char>) -> Seq<ProposalView>
    decreases ps.len(),
{
    if ps.len() == 0 {
        ps
    } else {
        let r = without_id(ps.drop_last(), id);
        if ps.last().id@ == id { r } else { r.push(ps.last()) }
    }
}

// ---------------------------------------------------------------------------
// Exec helpers.
// ---------------------------------------------------------------------------

fn find_validator_stake(vs: &Vec<Validator>, id: &str) -> (r: Option<u64>)
    ensures
        r == stake_of(vs@, id@),
{
    let mut i: usize = 0;
    assert(vs@.skip(0) =~= vs@);
    while i < vs.len()
        invariant
            i <= vs@.len(),
            stake_of(vs@, id@) == stake_of(vs@.skip(i as int), id@),
        decreases vs@.len() - i,
    {
        assert(vs@.skip(i as int).drop_first() =~= vs@.skip(i + 1));
        if str_eq(vs[i].id.as_str(), id) {
            return Some(vs[i].stake);
        }
        i = i + 1;
    }
    None
}

pub proof fn lemma_stake_of_validator(vs: Seq<Validator>, id: Seq<char>)
    ensures
        (stake_of(vs, id) is Some) == is_validator(vs, id),
    decreases vs.len(),
{
    if vs.len() > 0 {
        lemma_stake_of_validator(vs.drop_first(), id);
        if is_validator(vs.drop_first(), id) {
            let i = choose|i: int| 0 <= i < vs.drop_first().len() && (#[trigger] vs.drop_first()[i]).id@ == id;
            assert(vs[i + 1].id@ == id);
        }
        if is_validator(vs, id) && vs[0].id@ != id {
            let i = choose|i: int| 0 <= i < vs.len() && (#[trigger] vs[i]).id@ == id;
            assert(vs.drop_first()[i - 1].id@ == id);
        }
    }
}

fn has_validator(vs: &Vec<Validator>, id: &str) -> (r: bool)
    ensures
        r == is_validator(vs@, id@),
{
    proof {
        lemma_stake_of_validator(vs@, id@);
    }
    find_validator_stake(vs, id).is_some()
}

fn find_proposal(ps: &Vec<ConsensusProposal>, id: &str) -> (r: Option<usize>)
    ensures
        match r {
            Some(i) => proposal_index(proposals_view(ps@), id@) == Some(i as int) && i < ps@.len(),
            None => proposal_index(proposals_view(ps@), id@) is None,
        },
{
    let ghost pv = proposals_view(ps@);
    proof {
        lemma_proposal_index(pv, id@);
    }
    let mut i: usize = 0;
    assert(pv.skip(0) =~= pv);
    while i < ps.len()
        invariant
            i <= ps@.len(),
            pv == proposals_view(ps@),
            proposal_index(pv, id@) == match proposal_index(pv.skip(i as int), id@) {
                Some(j) => Some(j + i),
                None => None::<int>,
            },
        decreases ps@.len() - i,
    {
        assert(pv.skip(i as int).drop_first() =~= pv.skip(i + 1));
        assert(pv.skip(i as int)[0] == ps@[i as int]@);
        if str_eq(ps[i].id.as_str(), id) {
            return Some(i);
        }
        i = i + 1;
    }
    None
}

proof fn lemma_total_stake_prefix(vs: Seq<Validator>, i: int)
    requires
        0 <= i <= vs.len(),
    ensures
        total_stake(vs.take(i)) <= total_stake(vs),
    decreases vs.len() - i,
{
    if i < vs.len() {
        lemma_total_stake_prefix(vs, i + 1);
        assert(vs.take(i + 1).drop_last() =~= vs.take(i));
    } else {
        assert(vs.take(i) =~= vs);
    }
}

fn sum_stake(vs: &Vec<Validator>) -> (r: u64)
    requires
        total_stake(vs@) <= u64::MAX,
    ensures
        r == total_stake(vs@),
{
    let mut total: u64 = 0;
    let mut i: usize = 0;
    while i < vs.len()
        invariant
            i <= vs@.len(),
            total_stake(vs@) <= u64::MAX,
            total == total_stake(vs@.take(i as int)),
        decreases vs@.len() - i,
    {
        assert(vs@.take(i + 1).drop_last() =~= vs@.take(i as int));
        proof {
            lemma_total_stake_prefix(vs@, i + 1);
        }
        total = total + vs[i].stake;
        i = i + 1;
    }
    assert(vs@.take(i as int) =~= vs@);
    total
}

proof fn lemma_votes_stake_prefix(votes: Seq<Vote>, vs: Seq<Validator>, only_yes: bool, i: int)
    requires
        0 <= i <= votes.len(),
    ensures
        votes_stake(votes.take(i), vs, only_yes) <= votes_stake(votes, vs, only_yes),
    decreases votes.len() - i,
{
    if i < votes.len() {
        lemma_votes_stake_prefix(votes, vs, only_yes, i + 1);
        assert(votes.take(i + 1).drop_last() =~= votes.take(i));
    } else {
        assert(votes.take(i) =~= votes);
    }
}

fn sum_votes_stake(votes: &Vec<Vote>, vs: &Vec<Validator>, only_yes: bool) -> (r: u64)
    requires
        votes_stake(votes@, vs@, only_yes) <= u64::MAX,
    ensures
        r == votes_stake(votes@, vs@, only_yes),
{
    let mut total: u64 = 0;
    let mut i: usize = 0;
    while i < votes.len()
        invariant
            i <= votes@.len(),
            votes_stake(votes@, vs@, only_yes) <= u64::MAX,
            total == votes_stake(votes@.take(i as int), vs@, only_yes),
        decreases votes@.len() - i,
    {
        assert(votes@.take(i + 1).drop_last() =~= votes@.take(i as int));
        proof {
            lemma_votes_stake_prefix(votes@, vs@, only_yes, i + 1);
        }
        let v = &votes[i];
        if !only_yes || v.vote {
            match find_validator_stake(vs, v.validator_id.as_str()) {
                Some(s) => {
                    total = total + s;
                },
                None => {},
            }
        }
        i = i + 1;
    }
    assert(votes@.take(i as int) =~= votes@);
    total
}

impl ConsensusEngine {
    /// An engine with no validators or proposals and a 67% threshold.
    pub fn new(state_store: StateStore) -> (e: Self)
        ensures
            e.validators@ == Seq::<Validator>::empty(),
            e.proposals@ == Seq::<ConsensusProposal>::empty(),
            e.quorum_threshold == 67,
            e.state_store@ == state_store@,
    {
        ConsensusEngine { validators: Vec::new(), proposals: Vec::new(), quorum_threshold: 67, state_store }
    }

    /// Adds a validator at the end of the list.
    pub fn add_validator(&mut self, validator: Validator)
        ensures
            final(self).validators@ == old(self).validators@.push(validator),
            final(self).proposals == old(self).proposals,
            final(self).quorum_threshold == old(self).quorum_threshold,
            final(self).state_store == old(self).state_store,
    {
        self.validators.push(validator);
    }

    /// Whether `proposal` may be accepted at time `now`.
    fn validate_proposal(&self, proposal: &ConsensusProposal, now: u64) -> (r: Result<bool, ConsensusError>)
        ensures
            r == Ok::<bool, ConsensusError>(proposal_valid(self.validators@, *proposal, now)),
    {
        if now > proposal.expires_at {
            return Ok(false);
        }
        let proposer_exists = has_validator(&self.validators, proposal.proposer.as_str());
        Ok(proposer_exists)
    }

    /// Accepts `proposal` as of time `now` if it has not expired and comes from
    /// a validator; otherwise refuses it and changes nothing.
    pub fn create_proposal_at(&mut self, proposal: ConsensusProposal, now: u64) -> (r: Result<String, ConsensusError>)
        ensures
            final(self).validators == old(self).validators,
            final(self).quorum_threshold == old(self).quorum_threshold,
            final(self).state_store == old(self).state_store,
            proposal_valid(old(self).validators@, proposal, now) ==> {
                &&& proposals_view(final(self).proposals@) == proposals_view(old(self).proposals@).push(proposal@)
                &&& r matches Ok(id) && id@ == proposal.id@
            },
            !proposal_valid(old(self).validators@, proposal, now) ==> {
                &&& final(self).proposals == old(self).proposals
                &&& r == Err::<String, ConsensusError>(ConsensusError::InvalidProposal)
            },
    {
        let ok = self.validate_proposal(&proposal, now);
        match ok {
            Ok(true) => {},
            _ => {
                return Err(ConsensusError::InvalidProposal);
            },
        }
        let proposal_id = proposal.id.clone();
        let ghost pv = proposal@;
        self.proposals.push(proposal);
        assert(proposals_view(self.proposals@) =~= proposals_view(old(self).proposals@).push(pv));
        Ok(proposal_id)
    }

    /// Accepts `proposal` as of the current time (see `create_proposal_at`).
    pub fn create_proposal(&mut self, proposal: ConsensusProposal) -> (r: Result<String, ConsensusError>)
        ensures
            final(self).validators == old(self).validators,
            final(self).quorum_threshold == old(self).quorum_threshold,
            final(self).state_store == old(self).state_store,
            exists|t: u64| {
                &&& #[trigger] proposal_valid(old(self).validators@, proposal, t) ==> {
                    &&& proposals_view(final(self).proposals@) == proposals_view(old(self).proposals@).push(proposal@)
                    &&& r matches Ok(id) && id@ == proposal.id@
                }
                &&& !proposal_valid(old(self).validators@, proposal, t) ==> {
                    &&& final(self).proposals == old(self).proposals
                    &&& r == Err::<String, ConsensusError>(ConsensusError::InvalidProposal)
                }
            },
    {
        let t = now_secs();
        self.create_proposal_at(proposal, t)
    }

    /// Records `vote` on the proposal it names. Refused if there is no such
    /// proposal, if the voter is not a validator, or if the voter has already
    /// voted on it; otherwise the vote is appended and the answer is `true`.
    pub fn vote(&mut self, vote: Vote) -> (r: Result<bool, ConsensusError>)
        ensures
            final(self).validators == old(self).validators,
            final(self).quorum_threshold == old(self).quorum_threshold,
            final(self).state_store == old(self).state_store,
            final(self).proposals@.len() == old(self).proposals@.len(),
            match proposal_index(proposals_view(old(self).proposals@), vote.proposal_hash@) {
                None => r == Err::<bool, ConsensusError>(ConsensusError::ProposalNotFound)
                    && final(self).proposals == old(self).proposals,
                Some(i) => {
                    let p = old(self).proposals@[i]@;
                    if !is_validator(old(self).validators@, vote.validator_id@) {
                        r == Err::<bool, ConsensusError>(ConsensusError::UnauthorizedVoter)
                            && final(self).proposals == old(self).proposals
                    } else if exists|j: int| 0 <= j < p.votes.len() && (#[trigger] p.votes[j]).validator_id@ == vote.validator_id@ {
                        r == Err::<bool, ConsensusError>(ConsensusError::DuplicateVote)
                            && final(self).proposals == old(self).proposals
                    } else {
                        &&& r == Ok::<bool, ConsensusError>(true)
                        &&& proposals_view(final(self).proposals@) == proposals_view(old(self).proposals@).update(i,
                            ProposalView { votes: p.votes.push(vote), ..p })
                    }
                },
            },
            votes_distinct(proposals_view(old(self).proposals@)) ==> votes_distinct(proposals_view(final(self).proposals@)),
    {
        let idx = find_proposal(&self.proposals, vote.proposal_hash.as_str());
        match idx {
            None => Err(ConsensusError::ProposalNotFound),
            Some(index) => {
                let voter_exists = has_validator(&self.validators, vote.validator_id.as_str());
                if !voter_exists {
                    return Err(ConsensusError::UnauthorizedVoter);
                }
                let ghost p = self.proposals@[index as int]@;
                let mut j: usize = 0;
                let n = self.proposals[index].votes.len();
                while j < n
                    invariant
                        *self == *old(self),
                        proposal_index(proposals_view(old(self).proposals@), vote.proposal_hash@) == Some(index as int),
                        is_validator(old(self).validators@, vote.validator_id@),
                        index < self.proposals@.len(),
                        p == self.proposals@[index as int]@,
                        n == p.votes.len(),
                        j <= n,
                        forall|k: int| 0 <= k < j ==> (#[trigger] p.votes[k]).validator_id@ != vote.validator_id@,
                    decreases n - j,
                {
                    if str_eq(self.proposals[index].votes[j].validator_id.as_str(), vote.validator_id.as_str()) {
                        assert(p.votes[j as int].validator_id@ == vote.validator_id@);
                        return Err(ConsensusError::DuplicateVote);
                    }
                    j = j + 1;
                }
                let ghost old_ps = proposals_view(self.proposals@);
                let mut proposal = self.proposals.remove(index);
                proposal.votes.push(vote);
                self.proposals.insert(index, proposal);
                proof {
                    let ps = proposals_view(self.proposals@);
                    assert(ps =~= old_ps.update(index as int, ProposalView { votes: p.votes.push(vote), ..p }));
                    if votes_distinct(old_ps) {
                        assert forall|i: int, a: int, b: int|
                            0 <= i < ps.len() && 0 <= a < b < ps[i].votes.len() implies
                            (#[trigger] ps[i].votes[a]).validator_id@ != (#[trigger] ps[i].votes[b]).validator_id@ by {
                            if i == index && b == p.votes.len() {
                                assert(ps[i].votes[a] == p.votes[a]);
                            } else if i == index {
                                assert(ps[i].votes[a] == p.votes[a] && ps[i].votes[b] == p.votes[b]);
                                assert(old_ps[i].votes[a] == p.votes[a] && old_ps[i].votes[b] == p.votes[b]);
                            } else {
                                assert(ps[i] == old_ps[i]);
                                assert(old_ps[i].votes[a] == ps[i].votes[a]);
                                assert(old_ps[i].votes[b] == ps[i].votes[b]);
                            }
                        }
                    }
                }
                Ok(true)
            },
        }
    }

    /// The status of the proposal with this id: not found; rejected when the
    /// supporting stake is below the threshold; approved when it reaches the
    /// threshold and at least half of all stake has voted; pending otherwise.
    pub fn check_proposal_status(&self, proposal_id: &str) -> (r: ProposalStatus)
        requires
            status_fits(*self, proposal_id@),
        ensures
            r == status_of(*self, proposal_id@),
    {
        let idx = find_proposal(&self.proposals, proposal_id);
        let index = match idx {
            Some(i) => i,
            None => return ProposalStatus::NotFound,
        };
        let proposal = &self.proposals[index];
        let total_stake = sum_stake(&self.validators);
        let yes_votes_stake = sum_votes_stake(&proposal.votes, &self.validators, true);
        let support_percentage = if total_stake > 0 { (yes_votes_stake * 100) / total_stake } else { 0 };
        if support_percentage >= self.quorum_threshold {
            let voted_stake = sum_votes_stake(&proposal.votes, &self.validators, false);
            let participation_percentage = if total_stake > 0 { (voted_stake * 100) / total_stake } else { 0 };
            if participation_percentage >= 50 {
                ProposalStatus::Approved
            } else {
                ProposalStatus::Pending
            }
        } else {
            ProposalStatus::Rejected
        }
    }

    /// Carries out an approved proposal and removes every proposal with its
    /// id. A proposal that is pending, rejected or unknown is refused with the
    /// matching error and nothing changes.
    pub fn execute_approved_proposal(&mut self, proposal_id: &str) -> (r: Result<bool, ConsensusError>)
        requires
            status_fits(*old(self), proposal_id@),
        ensures
            final(self).validators == old(self).validators,
            final(self).quorum_threshold == old(self).quorum_threshold,
            final(self).state_store == old(self).state_store,
            match status_of(*old(self), proposal_id@) {
                ProposalStatus::Approved => r == Ok::<bool, ConsensusError>(true)
                    && proposals_view(final(self).proposals@) == without_id(proposals_view(old(self).proposals@), proposal_id@),
                ProposalStatus::Pending => r == Err::<bool, ConsensusError>(ConsensusError::ProposalPending)
                    && final(self).proposals == old(self).proposals,
                ProposalStatus::Rejected => r == Err::<bool, ConsensusError>(ConsensusError::ProposalRejected)
                    && final(self).proposals == old(self).proposals,
                ProposalStatus::NotFound => r == Err::<bool, ConsensusError>(ConsensusError::ProposalNotFound)
                    && final(self).proposals == old(self).proposals,
            },
    {
        match self.check_proposal_status(proposal_id) {
            ProposalStatus::Approved => {
                let idx = find_proposal(&self.proposals, proposal_id);
                let index = match idx {
                    Some(i) => i,
                    None => return Err(ConsensusError::ProposalNotFound),
                };
                let proposal = self.proposals[index].clone();
                match &proposal.proposal_type {
                    ProposalType::StateUpdate(content) => {
                        self.apply_state_update(content.as_str())?;
                    },
                    ProposalType::RuleChange(content) => {
                        self.apply_rule_change(content.as_str())?;
                    },
                    ProposalType::ValidatorChange(content) => {
                        self.apply_validator_change(content.as_str())?;
                    },
                    ProposalType::ConstitutionUpdate(content) => {
                        self.apply_constitution_update(content.as_str())?;
                    },
                }
                let mut kept: Vec<ConsensusProposal> = Vec::new();
                let mut i: usize = 0;
                while i < self.proposals.len()
                    invariant
                        i <= self.proposals@.len(),
                        self.proposals == old(self).proposals,
                        proposals_view(kept@) == without_id(proposals_view(self.proposals@).take(i as int), proposal_id@),
                    decreases self.proposals@.len() - i,
                {
                    let ghost pv = proposals_view(self.proposals@);
                    assert(pv.take(i + 1).drop_last() =~= pv.take(i as int));
                    assert(pv.take(i + 1).last() == self.proposals@[i as int]@);
                    if !str_eq(self.proposals[i].id.as_str(), proposal_id) {
                        let ghost before = kept@;
                        let c = self.proposals[i].clone();
                        kept.push(c);
                        assert(proposals_view(kept@) =~= proposals_view(before).push(c@));
                    }
                    i = i + 1;
                }
                assert(proposals_view(self.proposals@).take(i as int) =~= proposals_view(self.proposals@));
                self.proposals = kept;
                Ok(true)
            },
            ProposalStatus::Pending => Err(ConsensusError::ProposalPending),
            ProposalStatus::Rejected => Err(ConsensusError::ProposalRejected),
            ProposalStatus::NotFound => Err(ConsensusError::ProposalNotFound),
        }
    }

    /// Checks an execution result: the trace hash it reports is the one
    /// expected, and its state changes apply to a copy of the state. Both
    /// always hold, so the answer is `Ok(true)`.
    pub fn validate_execution_result(&self, adu: &AtomicDecisionUnit, result: &ExecutionResult) -> (r: Result<bool, ConsensusError>)
        requires
            changes_fit(self.state_store@, changes_view(result.state_diffs@)),
        ensures
            r == Ok::<bool, ConsensusError>(true),
    {
        let expected_hash = self.compute_expected_trace_hash(adu, result);
        if !str_eq(expected_hash.as_str(), result.trace_hash.as_str()) {
            return Ok(false);
        }
        let mut temp_state = self.state_store.clone_for_validation();
        match temp_state.apply_diff(clone_changes(&result.state_diffs)) {
            Ok(_) => Ok(true),
            Err(_) => Ok(false),
        }
    }

    /// The trace hash a unit's execution is expected to have: the one the
    /// result reports.
    fn compute_expected_trace_hash(&self, _adu: &AtomicDecisionUnit, result: &ExecutionResult) -> (r: String)
        ensures
            r@ == result.trace_hash@,
    {
        result.trace_hash.clone()
    }

    fn apply_state_update(&mut self, _content: &str) -> (r: Result<(), ConsensusError>)
        ensures
            *final(self) == *old(self),
            r is Ok,
    {
        Ok(())
    }

    fn apply_rule_change(&mut self, _content: &str) -> (r: Result<(), ConsensusError>)
        ensures
            *final(self) == *old(self),
            r is Ok,
    {
        Ok(())
    }

    fn apply_validator_change(&mut self, _content: &str) -> (r: Result<(), ConsensusError>)
        ensures
            *final(self) == *old(self),
            r is Ok,
    {
        Ok(())
    }

    fn apply_constitution_update(&mut self, _content: &str) -> (r: Result<(), ConsensusError>)
        ensures
            *final(self) == *old(self),
            r is Ok,
    {
        Ok(())
    }
}

impl Clone for ConsensusEngine {
    fn clone(&self) -> (r: Self)
        ensures
            r.validators@ == self.validators@,
            proposals_view(r.proposals@) == proposals_view(self.proposals@),
            r.quorum_threshold == self.quorum_threshold,
            r.state_store@ == self.state_store@,
    {
        let mut proposals: Vec<ConsensusProposal> = Vec::new();
        let mut i: usize = 0;
        while i < self.proposals.len()
            invariant
                i <= self.proposals@.len(),
                proposals_view(proposals@) == proposals_view(self.proposals@).take(i as int),
            decreases self.proposals@.len() - i,
        {
            let ghost before = proposals@;
            let c = self.proposals[i].clone();
            proposals.push(c);
            assert(proposals_view(proposals@) =~= proposals_view(before).push(c@));
            assert(proposals_view(self.proposals@).take(i + 1) =~= proposals_view(self.proposals@).take(i as int).push(self.proposals@[i as int]@));
            i = i + 1;
        }
        assert(proposals_view(self.proposals@).take(i as int) =~= proposals_view(self.proposals@));
        ConsensusEngine {
            validators: clone_validators(&self.validators),
            proposals,
            quorum_threshold: self.quorum_threshold,
            state_store: self.state_store.clone_for_validation(),
        }
    }
}

} // verus!
