//! Stake-weighted on-chain governance: validators submit proposals, stake is
//! voted for or against them, and a proposal that reaches quorum and the
//! approval threshold once voting has closed is executed. Executing a proposal
//! may amend the constitution, change the governance parameters or add and
//! remove validators.
use vstd::prelude::*;

use crate::clock::now_secs;
use crate::collections::StringMap;
use crate::consensus::{ConsensusEngine, Validator};
use crate::text::{
    chars_of, contains_chars, decimal, has_prefix, occurs_in, parse_u64, parse_u64_chars,
    push_chars, push_decimal, push_str, split_chars, split_on, starts_with_chars,
    strip_all_prefixes, strip_all_prefixes_chars, str_eq, string_from_chars, trim_chars, trim_ws,
};

verus! {

// ---------------------------------------------------------------------------
// Types and their views.
// ---------------------------------------------------------------------------

/// A rule of the constitution.
#[derive(Debug)]
pub struct ConstitutionalRule {
    pub id: String,
    pub name: String,
    pub description: String,
    /// What the rule says.
    pub content: String,
    pub version: u64,
    pub created_at: u64,
    pub updated_at: u64,
    pub active: bool,
}

/// A constitutional rule with its texts as character sequences.
pub struct RuleView {
    pub id: Seq<char>,
    pub name: Seq<char>,
    pub description: Seq<char>,
    pub content: Seq<char>,
    pub version: u64,
    pub created_at: u64,
    pub updated_at: u64,
    pub active: bool,
}

impl View for ConstitutionalRule {
    type V = RuleView;

    open spec fn view(&self) -> RuleView {
        RuleView {
            id: self.id@,
            name: self.name@,
            description: self.description@,
            content: self.content@,
            version: self.version,
            created_at: self.created_at,
            updated_at: self.updated_at,
            active: self.active,
        }
    }
}

impl Clone for ConstitutionalRule {
    fn clone(&self) -> (r: Self)
        ensures
            r == *self,
    {
        ConstitutionalRule {
            id: self.id.clone(),
            name: self.name.clone(),
            description: self.description.clone(),
            content: self.content.clone(),
            version: self.version,
            created_at: self.created_at,
            updated_at: self.updated_at,
            active: self.active,
        }
    }
}

/// What a governance proposal asks for, with its argument.
#[derive(Debug, PartialEq)]
pub enum GovernanceProposalType {
    ConstitutionalAmendment(String),
    ParameterChange(String),
    ValidatorManagement(String),
    EmergencyBrake(bool),
    UpgradeProtocol(String),
    BudgetAllocation(String),
    PolicyChange(String),
    RiskAssessment(String),
}

/// A proposal type with its argument as a character sequence.
pub enum GovTypeView {
    ConstitutionalAmendment(Seq<char>),
    ParameterChange(Seq<char>),
    ValidatorManagement(Seq<char>),
    EmergencyBrake(bool),
    UpgradeProtocol(Seq<char>),
    BudgetAllocation(Seq<char>),
    PolicyChange(Seq<char>),
    RiskAssessment(Seq<char>),
}

impl View for GovernanceProposalType {
    type V = GovTypeView;

    open spec fn view(&self) -> GovTypeView {
        match self {
            GovernanceProposalType::ConstitutionalAmendment(s) => GovTypeView::ConstitutionalAmendment(s@),
            GovernanceProposalType::ParameterChange(s) => GovTypeView::ParameterChange(s@),
            GovernanceProposalType::ValidatorManagement(s) => GovTypeView::ValidatorManagement(s@),
            GovernanceProposalType::EmergencyBrake(b) => GovTypeView::EmergencyBrake(*b),
            GovernanceProposalType::UpgradeProtocol(s) => GovTypeView::UpgradeProtocol(s@),
            GovernanceProposalType::BudgetAllocation(s) => GovTypeView::BudgetAllocation(s@),
            GovernanceProposalType::PolicyChange(s) => GovTypeView::PolicyChange(s@),
            GovernanceProposalType::RiskAssessment(s) => GovTypeView::RiskAssessment(s@),
        }
    }
}

impl Clone for GovernanceProposalType {
    fn clone(&self) -> (r: Self)
        ensures
            r == *self,
    {
        match self {
            GovernanceProposalType::ConstitutionalAmendment(s) => GovernanceProposalType::ConstitutionalAmendment(s.clone()),
            GovernanceProposalType::ParameterChange(s) => GovernanceProposalType::ParameterChange(s.clone()),
            GovernanceProposalType::ValidatorManagement(s) => GovernanceProposalType::ValidatorManagement(s.clone()),
            GovernanceProposalType::EmergencyBrake(b) => GovernanceProposalType::EmergencyBrake(*b),
            GovernanceProposalType::UpgradeProtocol(s) => GovernanceProposalType::UpgradeProtocol(s.clone()),
            GovernanceProposalType::BudgetAllocation(s) => GovernanceProposalType::BudgetAllocation(s.clone()),
            GovernanceProposalType::PolicyChange(s) => GovernanceProposalType::PolicyChange(s.clone()),
            GovernanceProposalType::RiskAssessment(s) => GovernanceProposalType::RiskAssessment(s.clone()),
        }
    }
}

/// A governance proposal and its tally.
#[derive(Debug, PartialEq)]
pub struct GovernanceProposal {
    pub id: String,
    pub title: String,
    pub description: String,
    pub proposal_type: GovernanceProposalType,
    pub proposer: String,
    pub created_at: u64,
    pub voting_deadline: u64,
    pub executed: bool,
    pub passed: bool,
    pub votes_for: u64,
    pub votes_against: u64,
    pub total_stake_voted: u64,
    pub minimum_stake_threshold: u64,
    pub quorum_met: bool,
    pub approval_percentage: u64,
    pub proposer_stake: u64,
}

/// A governance proposal with its texts as character sequences.
pub struct GovProposalView {
    pub id: Seq<char>,
    pub title: Seq<char>,
    pub description: Seq<char>,
    pub proposal_type: GovTypeView,
    pub proposer: Seq<char>,
    pub created_at: u64,
    pub voting_deadline: u64,
    pub executed: bool,
    pub passed: bool,
    pub votes_for: u64,
    pub votes_against: u64,
    pub total_stake_voted: u64,
    pub minimum_stake_threshold: u64,
    pub quorum_met: bool,
    pub approval_percentage: u64,
    pub proposer_stake: u64,
}

impl View for GovernanceProposal {
    type V = GovProposalView;

    open spec fn view(&self) -> GovProposalView {
        GovProposalView {
            id: self.id@,
            title: self.title@,
            description: self.description@,
            proposal_type: self.proposal_type@,
            proposer: self.proposer@,
            created_at: self.created_at,
            voting_deadline: self.voting_deadline,
            executed: self.executed,
            passed: self.passed,
            votes_for: self.votes_for,
            votes_against: self.votes_against,
            total_stake_voted: self.total_stake_voted,
            minimum_stake_threshold: self.minimum_stake_threshold,
            quorum_met: self.quorum_met,
            approval_percentage: self.approval_percentage,
            proposer_stake: self.proposer_stake,
        }
    }
}

impl Clone for GovernanceProposal {
    fn clone(&self) -> (r: Self)
        ensures
            r == *self,
    {
        GovernanceProposal {
            id: self.id.clone(),
            title: self.title.clone(),
            description: self.description.clone(),
            proposal_type: self.proposal_type.clone(),
            proposer: self.proposer.clone(),
            created_at: self.created_at,
            voting_deadline: self.voting_deadline,
            executed: self.executed,
            passed: self.passed,
            votes_for: self.votes_for,
            votes_against: self.votes_against,
            total_stake_voted: self.total_stake_voted,
            minimum_stake_threshold: self.minimum_stake_threshold,
            quorum_met: self.quorum_met,
            approval_percentage: self.approval_percentage,
            proposer_stake: self.proposer_stake,
        }
    }
}

/// A validator with its texts as character sequences.
pub struct ValidatorView {
    pub id: Seq<char>,
    pub public_key: Seq<char>,
    pub stake: u64,
    pub reputation: u64,
}

/// The view of a validator.
pub open spec fn validator_view(v: Validator) -> ValidatorView {
    ValidatorView { id: v.id@, public_key: v.public_key@, stake: v.stake, reputation: v.reputation }
}

/// The views of a list of validators.
pub open spec fn validators_view(vs: Seq<Validator>) -> Seq<ValidatorView> {
    vs.map_values(|v: Validator| validator_view(v))
}

/// The views of a list of rules.
pub open spec fn rules_view(rs: Seq<ConstitutionalRule>) -> Seq<RuleView> {
    rs.map_values(|r: ConstitutionalRule| r@)
}

/// The views of a list of proposals.
pub open spec fn gov_proposals_view(ps: Seq<GovernanceProposal>) -> Seq<GovProposalView> {
    ps.map_values(|p: GovernanceProposal| p@)
}

/// The governance engine.
#[derive(Debug)]
pub struct GovernanceEngine {
    pub constitution: Vec<ConstitutionalRule>,
    pub proposals: Vec<GovernanceProposal>,
    /// Stake each voter has cast, over all proposals.
    pub voting_power: StringMap<u64>,
    pub consensus_engine: ConsensusEngine,
    /// Stake a proposer must hold to submit a proposal.
    pub min_stake_for_proposal: u64,
    /// Length of the voting period, in seconds.
    pub voting_period: u64,
    /// Share of the active stake, in percent, that must vote.
    pub quorum_percentage: u64,
    /// Share of the votes cast, in percent, that must be in favour.
    pub approval_threshold: u64,
}

/// What governance decisions read and change.
#[verifier::ext_equal]
pub struct GovView {
    pub constitution: Seq<RuleView>,
    pub proposals: Seq<GovProposalView>,
    pub voting_power: Map<Seq<char>, u64>,
    pub validators: Seq<ValidatorView>,
    pub min_stake_for_proposal: u64,
    pub voting_period: u64,
    pub quorum_percentage: u64,
    pub approval_threshold: u64,
}

impl View for GovernanceEngine {
    type V = GovView;

    open spec fn view(&self) -> GovView {
        GovView {
            constitution: rules_view(self.constitution@),
            proposals: gov_proposals_view(self.proposals@),
            voting_power: self.voting_power@,
            validators: validators_view(self.consensus_engine.validators@),
            min_stake_for_proposal: self.min_stake_for_proposal,
            voting_period: self.voting_period,
            quorum_percentage: self.quorum_percentage,
            approval_threshold: self.approval_threshold,
        }
    }
}

/// The result of tallying a proposal.
#[derive(Debug, Clone, Copy, PartialEq, Eq, Structural)]
pub enum ProposalOutcome {
    Passed,
    Defeated,
    Pending,
}

/// Why a governance operation was refused.
#[derive(Debug, Clone, Copy, PartialEq, Eq, Structural)]
pub enum GovernanceError {
    InsufficientStake,
    ProposalNotFound,
    VotingPeriodEnded,
    VotingPeriodNotEnded,
    ExecutionFailed,
    InvalidProposal,
}

impl GovernanceError {
    /// The error's message.
    pub fn to_string(&self) -> (r: String)
        ensures
            r@ == match self {
                GovernanceError::InsufficientStake => "Insufficient stake for proposal"@,
                GovernanceError::ProposalNotFound => "Proposal not found"@,
                GovernanceError::VotingPeriodEnded => "Voting period has ended"@,
                GovernanceError::VotingPeriodNotEnded => "Voting period has not ended yet"@,
                GovernanceError::ExecutionFailed => "Proposal execution failed"@,
                GovernanceError::InvalidProposal => "Invalid proposal"@,
            },
    {
        match self {
            GovernanceError::InsufficientStake => String::from_str("Insufficient stake for proposal"),
            GovernanceError::ProposalNotFound => String::from_str("Proposal not found"),
            GovernanceError::VotingPeriodEnded => String::from_str("Voting period has ended"),
            GovernanceError::VotingPeriodNotEnded => String::from_str("Voting period has not ended yet"),
            GovernanceError::ExecutionFailed => String::from_str("Proposal execution failed"),
            GovernanceError::InvalidProposal => String::from_str("Invalid proposal"),
        }
    }
}

// ---------------------------------------------------------------------------
// The model of governance decisions.
// ---------------------------------------------------------------------------

/// The rule every new constitution starts with, dated `now`.
pub open spec fn basic_rule(now: u64) -> RuleView {
    RuleView {
        id: "rule_0"@,
        name: "Basic Execution Rule"@,
        description: "All executions must follow basic safety rules"@,
        content: "F(State, Input) -> NewState where StateChange is verified"@,
        version: 1,
        created_at: now,
        updated_at: now,
        active: true,
    }
}

/// The position of the first proposal with this id, if any.
pub open spec fn gov_index(ps: Seq<GovProposalView>, id: Seq<char>) -> Option<int>
    decreases ps.len(),
{
    if ps.len() == 0 {
        None
    } else if ps[0].id == id {
        Some(0)
    } else {
        match gov_index(ps.drop_first(), id) {
            Some(i) => Some(i + 1),
            None => None,
        }
    }
}

/// `gov_index` finds the first proposal with the id.
pub proof fn lemma_gov_index(ps: Seq<GovProposalView>, id: Seq<char>)
    ensures
        match gov_index(ps, id) {
            Some(i) => 0 <= i < ps.len() && ps[i].id == id
                && forall|j: int| 0 <= j < i ==> (#[trigger] ps[j]).id != id,
            None => forall|j: int| 0 <= j < ps.len() ==> (#[trigger] ps[j]).id != id,
        },
    decreases ps.len(),
{
    if ps.len() > 0 && ps[0].id != id {
        lemma_gov_index(ps.drop_first(), id);
        match gov_index(ps.drop_first(), id) {
            Some(i) => {
                assert forall|j: int| 0 <= j < i + 1 implies (#[trigger] ps[j]).id != id by {
                    if j > 0 {
                        assert(ps[j] == ps.drop_first()[j - 1]);
                    }
                }
            },
            None => {
                assert forall|j: int| 0 <= j < ps.len() implies (#[trigger] ps[j]).id != id by {
                    if j > 0 {
                        assert(ps[j] == ps.drop_first()[j - 1]);
                    }
                }
            },
        }
    }
}

/// Whether some validator has this id.
pub open spec fn is_member(vs: Seq<ValidatorView>, id: Seq<char>) -> bool {
    exists|i: int| 0 <= i < vs.len() && (#[trigger] vs[i]).id == id
}

/// Whether `proposer` may submit a proposal of type `t`: it must be a
/// validator, and a proposal to engage the emergency brake is refused while
/// there is no emergency (there never is one).
pub open spec fn may_submit(v: GovView, proposer: Seq<char>, t: GovTypeView) -> bool {
    is_member(v.validators, proposer) && t != GovTypeView::EmergencyBrake(true)
}

/// The id of the `n`-th proposal.
pub open spec fn gov_proposal_id(n: nat) -> Seq<char> {
    "gov_proposal_"@ + decimal(n)
}

/// A submitted proposal as it is stored: numbered, dated, with its deadline
/// one voting period later, and with the stake figures filled in.
pub open spec fn submitted(p: GovProposalView, n: nat, stake: u64, v: GovView, now: u64) -> GovProposalView {
    GovProposalView {
        id: gov_proposal_id(n),
        created_at: now,
        voting_deadline: (now + v.voting_period) as u64,
        proposer_stake: stake,
        minimum_stake_threshold: v.min_stake_for_proposal,
        ..p
    }
}

/// Whether a submission gets past the stake and permission checks.
pub open spec fn submission_accepted(v: GovView, p: GovProposalView, stake: u64) -> bool {
    stake >= v.min_stake_for_proposal && may_submit(v, p.proposer, p.proposal_type)
}

/// Submitting proposal `p` with `stake` at time `now`: refused for too little
/// stake, then for a proposer who may not submit it; otherwise it is numbered
/// after the proposals already there and appended.
pub open spec fn create_step(v: GovView, p: GovProposalView, stake: u64, now: u64) -> (GovView, Result<Seq<char>, GovernanceError>) {
    if stake < v.min_stake_for_proposal {
        (v, Err(GovernanceError::InsufficientStake))
    } else if !may_submit(v, p.proposer, p.proposal_type) {
        (v, Err(GovernanceError::InvalidProposal))
    } else {
        let q = submitted(p, v.proposals.len() + 1, stake, v, now);
        (GovView { proposals: v.proposals.push(q), ..v }, Ok(q.id))
    }
}

/// A result with its text taken by its view.
pub open spec fn text_result(r: Result<String, GovernanceError>) -> Result<Seq<char>, GovernanceError> {
    match r {
        Ok(s) => Ok(s@),
        Err(e) => Err(e),
    }
}

/// Whether the share of the active stake (10000) that voted reaches the
/// quorum, in whole percent.
pub open spec fn quorum_reached(p: GovProposalView, quorum: u64) -> bool {
    (p.total_stake_voted * 100) / 10000 >= quorum
}

/// The share of the votes cast that is in favour, in whole percent; 0 when
/// nothing was cast.
pub open spec fn support_of(p: GovProposalView) -> nat {
    if p.votes_for + p.votes_against > 0 {
        ((p.votes_for * 100) / (p.votes_for + p.votes_against)) as nat
    } else {
        0
    }
}

/// Whether the tally of `p` can be computed in 64 bits: the participation
/// (`total_stake_voted * 100`), the votes cast (`votes_for + votes_against`)
/// and the support (`votes_for * 100`).
pub open spec fn tally_fits(p: GovProposalView) -> bool {
    &&& p.total_stake_voted * 100 <= u64::MAX
    &&& p.votes_for + p.votes_against <= u64::MAX
    &&& p.votes_for * 100 <= u64::MAX
}

/// `p` with the outcome of its tally recorded.
pub open spec fn tallied(p: GovProposalView, quorum: u64, threshold: u64) -> GovProposalView {
    GovProposalView {
        passed: quorum_reached(p, quorum) && support_of(p) >= threshold,
        quorum_met: quorum_reached(p, quorum),
        approval_percentage: support_of(p) as u64,
        ..p
    }
}

/// Tallying proposal `id` at time `now`: refused for an unknown proposal and
/// while voting is open; otherwise the outcome is recorded on the proposal.
pub open spec fn compute_step(v: GovView, id: Seq<char>, now: u64) -> (GovView, Result<ProposalOutcome, GovernanceError>) {
    match gov_index(v.proposals, id) {
        None => (v, Err(GovernanceError::ProposalNotFound)),
        Some(i) => if now <= v.proposals[i].voting_deadline {
            (v, Err(GovernanceError::VotingPeriodNotEnded))
        } else {
            let q = tallied(v.proposals[i], v.quorum_percentage, v.approval_threshold);
            (
                GovView { proposals: v.proposals.update(i, q), ..v },
                Ok(if q.passed { ProposalOutcome::Passed } else { ProposalOutcome::Defeated }),
            )
        },
    }
}

/// A whole-percent share reaches a bar exactly when the part times 100
/// reaches the bar times the whole.
proof fn lemma_percent_reaches(part: int, whole: int, bar: int)
    requires
        part >= 0,
        whole > 0,
        bar >= 0,
    ensures
        (part * 100) / whole >= bar <==> part * 100 >= bar * whole,
{
    let x = part * 100;
    let q = x / whole;
    let r = x % whole;
    vstd::arithmetic::div_mod::lemma_fundamental_div_mod(x, whole);
    vstd::arithmetic::div_mod::lemma_mod_bound(x, whole);
    if q >= bar {
        assert(whole * q >= whole * bar) by (nonlinear_arith)
            requires
                q >= bar,
                whole > 0;
    } else {
        assert(whole * q + whole <= whole * bar) by (nonlinear_arith)
            requires
                q + 1 <= bar,
                whole > 0;
    }
    assert(bar * whole == whole * bar) by (nonlinear_arith);
}

/// Tallying a proposal after its deadline decides it by its approval
/// threshold: with `cast` the stake voted for or against, a proposal whose
/// votes for, times 100, fall short of the threshold times `cast` is
/// Defeated; one that passes has reached both the threshold and the quorum
/// (participation `total_stake_voted * 100 / 10000` of at least the quorum
/// percentage); and one that reaches both, with some stake cast, passes. The
/// recorded approval is the whole percentage of the cast stake voted for.
pub proof fn lemma_tally_decides_by_threshold(v: GovView, id: Seq<char>, now: u64)
    requires
        gov_index(v.proposals, id) is Some,
        now > v.proposals[gov_index(v.proposals, id)->Some_0].voting_deadline,
    ensures
        ({
            let i = gov_index(v.proposals, id)->Some_0;
            let p = v.proposals[i];
            let cast = p.votes_for + p.votes_against;
            let participation = (p.total_stake_voted * 100) / 10000;
            let (v2, r) = compute_step(v, id, now);
            &&& p.votes_for * 100 < v.approval_threshold * cast ==> r == Ok::<ProposalOutcome, GovernanceError>(ProposalOutcome::Defeated)
                && !v2.proposals[i].passed
            &&& cast == 0 && v.approval_threshold > 0 ==> r == Ok::<ProposalOutcome, GovernanceError>(ProposalOutcome::Defeated)
            &&& participation < v.quorum_percentage ==> r == Ok::<ProposalOutcome, GovernanceError>(ProposalOutcome::Defeated)
            &&& r == Ok::<ProposalOutcome, GovernanceError>(ProposalOutcome::Passed) ==> p.votes_for * 100 >= v.approval_threshold * cast
                && participation >= v.quorum_percentage
            &&& cast > 0 && p.votes_for * 100 >= v.approval_threshold * cast && participation >= v.quorum_percentage
                ==> r == Ok::<ProposalOutcome, GovernanceError>(ProposalOutcome::Passed) && v2.proposals[i].passed
            &&& cast > 0 ==> v2.proposals[i].approval_percentage == (p.votes_for * 100) / cast
        }),
{
    let i = gov_index(v.proposals, id)->Some_0;
    lemma_gov_index(v.proposals, id);
    let p = v.proposals[i];
    let cast = p.votes_for + p.votes_against;
    if cast > 0 {
        lemma_percent_reaches(p.votes_for as int, cast, v.approval_threshold as int);
        lemma_percent_reaches(p.votes_for as int, cast, 101);
        assert((p.votes_for * 100) / cast <= 100);
    }
    let q = tallied(p, v.quorum_percentage, v.approval_threshold);
    let (v2, r) = compute_step(v, id, now);
    assert(v2.proposals[i] == q);
    assert(r == Ok::<ProposalOutcome, GovernanceError>(if q.passed { ProposalOutcome::Passed } else { ProposalOutcome::Defeated }));
    if cast == 0 {
        assert(v.approval_threshold * cast == 0) by (nonlinear_arith)
            requires
                cast == 0;
    }
}

/// Whether tallying proposal `id` at time `now` stays within 64 bits.
pub open spec fn computable(v: GovView, id: Seq<char>, now: u64) -> bool {
    match gov_index(v.proposals, id) {
        Some(i) => now > v.proposals[i].voting_deadline ==> tally_fits(v.proposals[i]),
        None => true,
    }
}

/// Whether voting on proposal `id` is open at time `now`.
pub open spec fn vote_open(v: GovView, id: Seq<char>, now: u64) -> bool {
    match gov_index(v.proposals, id) {
        Some(i) => now <= v.proposals[i].voting_deadline,
        None => false,
    }
}

/// The stake `voter` has cast so far.
pub open spec fn power_of(v: GovView, voter: Seq<char>) -> u64 {
    if v.voting_power.contains_key(voter) {
        v.voting_power[voter]
    } else {
        0
    }
}

/// Whether a vote of `stake` on proposal `id` keeps every count within 64 bits.
pub open spec fn tally_room(v: GovView, id: Seq<char>, voter: Seq<char>, vote_for: bool, stake: u64) -> bool {
    match gov_index(v.proposals, id) {
        Some(i) => {
            let p = v.proposals[i];
            &&& (if vote_for { p.votes_for + stake <= u64::MAX } else { p.votes_against + stake <= u64::MAX })
            &&& p.total_stake_voted + stake <= u64::MAX
            &&& power_of(v, voter) + stake <= u64::MAX
        },
        None => true,
    }
}

/// Voting `stake` for or against proposal `id` at time `now`: refused for an
/// unknown proposal and once the deadline has passed; otherwise the stake is
/// added to the tally and to the voter's cast stake.
pub open spec fn vote_step(v: GovView, id: Seq<char>, voter: Seq<char>, vote_for: bool, stake: u64, now: u64) -> (GovView, Result<(), GovernanceError>) {
    match gov_index(v.proposals, id) {
        None => (v, Err(GovernanceError::ProposalNotFound)),
        Some(i) => if now > v.proposals[i].voting_deadline {
            (v, Err(GovernanceError::VotingPeriodEnded))
        } else {
            let p = v.proposals[i];
            let q = if vote_for {
                GovProposalView {
                    votes_for: (p.votes_for + stake) as u64,
                    total_stake_voted: (p.total_stake_voted + stake) as u64,
                    ..p
                }
            } else {
                GovProposalView {
                    votes_against: (p.votes_against + stake) as u64,
                    total_stake_voted: (p.total_stake_voted + stake) as u64,
                    ..p
                }
            };
            (
                GovView {
                    proposals: v.proposals.update(i, q),
                    voting_power: v.voting_power.insert(voter, (power_of(v, voter) + stake) as u64),
                    ..v
                },
                Ok(()),
            )
        },
    }
}

/// The proposals that `keep` selects, in order.
pub open spec fn select_proposals(ps: Seq<GovernanceProposal>, keep: spec_fn(GovernanceProposal) -> bool) -> Seq<GovernanceProposal>
    decreases ps.len(),
{
    if ps.len() == 0 {
        ps
    } else {
        let rest = select_proposals(ps.drop_last(), keep);
        if keep(ps.last()) {
            rest.push(ps.last())
        } else {
            rest
        }
    }
}

/// The proposals not yet executed whose voting deadline is after `now`.
pub open spec fn active_proposals(ps: Seq<GovernanceProposal>, now: u64) -> Seq<GovernanceProposal> {
    select_proposals(ps, |p: GovernanceProposal| !p.executed && p.voting_deadline > now)
}

/// The active rules, in order.
pub open spec fn active_rules(rs: Seq<ConstitutionalRule>) -> Seq<ConstitutionalRule>
    decreases rs.len(),
{
    if rs.len() == 0 {
        rs
    } else {
        let rest = active_rules(rs.drop_last());
        if rs.last().active {
            rest.push(rs.last())
        } else {
            rest
        }
    }
}

/// The rule that amendment `content` of proposal `pid` adds to a
/// constitution of `n` rules, dated `now`.
pub open spec fn amended_rule(pid: Seq<char>, content: Seq<char>, n: nat, now: u64) -> RuleView {
    RuleView {
        id: "rule_"@ + pid + "_"@ + decimal(n),
        name: "Updated Rule from Prop "@ + pid,
        description: content,
        content: content,
        version: 1,
        created_at: now,
        updated_at: now,
        active: true,
    }
}

/// The engine after amendment `content` of proposal `pid` at time `now`.
pub open spec fn with_amendment(v: GovView, pid: Seq<char>, content: Seq<char>, now: u64) -> GovView {
    GovView { constitution: v.constitution.push(amended_rule(pid, content, v.constitution.len(), now)), ..v }
}

/// The number a parameter change names: what follows the first `=` (up to
/// the next one), without surrounding white space, read as a decimal; with
/// no `=` the text read is "0".
pub open spec fn param_value(content: Seq<char>) -> Option<u64> {
    let parts = split_on(content, '=');
    let raw = if parts.len() > 1 { parts[1] } else { seq!['0'] };
    parse_u64(trim_ws(raw))
}

/// The parameter `cur` after change `content`: where `content` mentions
/// `key` and names a number within `lo..=hi`, that number; otherwise `cur`.
pub open spec fn adjusted(content: Seq<char>, key: Seq<char>, lo: u64, hi: u64, cur: u64) -> u64 {
    if occurs_in(content, key) {
        match param_value(content) {
            Some(n) => if lo <= n <= hi { n } else { cur },
            None => cur,
        }
    } else {
        cur
    }
}

/// The engine after parameter change `content`: the quorum may move within
/// 10..=90 percent and the approval threshold within 51..=95 percent.
pub open spec fn with_parameters(v: GovView, content: Seq<char>) -> GovView {
    GovView {
        quorum_percentage: adjusted(content, "quorum_percentage"@, 10, 90, v.quorum_percentage),
        approval_threshold: adjusted(content, "approval_threshold"@, 51, 95, v.approval_threshold),
        ..v
    }
}

/// The validators other than those with id `id`, in order.
pub open spec fn without_validator(vs: Seq<ValidatorView>, id: Seq<char>) -> Seq<ValidatorView>
    decreases vs.len(),
{
    if vs.len() == 0 {
        vs
    } else {
        let rest = without_validator(vs.drop_last(), id);
        if vs.last().id != id {
            rest.push(vs.last())
        } else {
            rest
        }
    }
}

/// The stake an `add:` command names: its fourth field read as a decimal,
/// or 0 where it is not one.
pub open spec fn stake_field(s: Seq<char>) -> u64 {
    match parse_u64(s) {
        Some(n) => n,
        None => 0,
    }
}

/// The engine after validator command `content`: `add:ID:KEY:STAKE` (with
/// at least four `:`-separated fields) appends a validator with reputation
/// 100; `remove:ID` removes every validator with that id (all leading
/// copies of `remove:` are dropped to get the id); anything else changes
/// nothing.
pub open spec fn with_validators_managed(v: GovView, content: Seq<char>) -> GovView {
    if has_prefix(content, "add:"@) {
        let parts = split_on(content, ':');
        if parts.len() >= 4 {
            GovView {
                validators: v.validators.push(
                    ValidatorView { id: parts[1], public_key: parts[2], stake: stake_field(parts[3]), reputation: 100 },
                ),
                ..v
            }
        } else {
            v
        }
    } else if has_prefix(content, "remove:"@) {
        GovView { validators: without_validator(v.validators, strip_all_prefixes(content, "remove:"@)), ..v }
    } else {
        v
    }
}

/// What executing proposal `pid` of type `t` at time `now` does: an
/// amendment adds a rule, a parameter change adjusts the parameters, a
/// validator command adds or removes validators; the other types change
/// nothing here.
pub open spec fn action_effect(v: GovView, pid: Seq<char>, t: GovTypeView, now: u64) -> GovView {
    match t {
        GovTypeView::ConstitutionalAmendment(c) => with_amendment(v, pid, c, now),
        GovTypeView::ParameterChange(c) => with_parameters(v, c),
        GovTypeView::ValidatorManagement(c) => with_validators_managed(v, c),
        _ => v,
    }
}

/// The engine with the first proposal with id `id` marked executed.
pub open spec fn executed_mark(v: GovView, id: Seq<char>) -> GovView {
    match gov_index(v.proposals, id) {
        Some(i) => GovView {
            proposals: v.proposals.update(i, GovProposalView { executed: true, ..v.proposals[i] }),
            ..v
        },
        None => v,
    }
}

/// Executing item `(id, t)` at time `now`: the proposal is tallied; if it
/// passes, its action is carried out and it is marked executed (second
/// component `true`).
pub open spec fn execute_step(v: GovView, id: Seq<char>, t: GovTypeView, now: u64) -> (GovView, bool) {
    let c = compute_step(v, id, now);
    if c.1 == Ok::<ProposalOutcome, GovernanceError>(ProposalOutcome::Passed) {
        (executed_mark(action_effect(c.0, id, t, now), id), true)
    } else {
        (c.0, false)
    }
}

/// Executing `items` in order: the final engine and the ids executed.
pub open spec fn execute_run(v: GovView, items: Seq<(Seq<char>, GovTypeView)>, now: u64) -> (GovView, Seq<Seq<char>>)
    decreases items.len(),
{
    if items.len() == 0 {
        (v, Seq::empty())
    } else {
        let s = execute_step(v, items[0].0, items[0].1, now);
        let rest = execute_run(s.0, items.drop_first(), now);
        (rest.0, if s.1 { seq![items[0].0] + rest.1 } else { rest.1 })
    }
}

/// The ids and types of the proposals that passed and are not yet executed,
/// in order.
pub open spec fn pending_items(ps: Seq<GovProposalView>) -> Seq<(Seq<char>, GovTypeView)>
    decreases ps.len(),
{
    if ps.len() == 0 {
        Seq::empty()
    } else {
        let rest = pending_items(ps.drop_last());
        let p = ps.last();
        if !p.executed && p.passed {
            rest.push((p.id, p.proposal_type))
        } else {
            rest
        }
    }
}

/// Whether every item can be tallied at time `now` within 64 bits.
pub open spec fn all_computable(v: GovView, items: Seq<(Seq<char>, GovTypeView)>, now: u64) -> bool {
    forall|k: int| 0 <= k < items.len() ==> #[trigger] computable(v, items[k].0, now)
}

/// Whether two lists of proposals have the same ids, deadlines and votes.
pub open spec fn same_tallies(a: Seq<GovProposalView>, b: Seq<GovProposalView>) -> bool {
    &&& a.len() == b.len()
    &&& forall|i: int| 0 <= i < a.len() ==> {
        &&& (#[trigger] a[i]).id == b[i].id
        &&& a[i].voting_deadline == b[i].voting_deadline
        &&& a[i].votes_for == b[i].votes_for
        &&& a[i].votes_against == b[i].votes_against
        &&& a[i].total_stake_voted == b[i].total_stake_voted
    }
}

proof fn lemma_same_tallies_index(a: Seq<GovProposalView>, b: Seq<GovProposalView>, id: Seq<char>)
    requires
        same_tallies(a, b),
    ensures
        gov_index(a, id) == gov_index(b, id),
    decreases a.len(),
{
    if a.len() > 0 {
        assert(a[0].id == b[0].id);
        assert forall|i: int| 0 <= i < a.drop_first().len() implies (#[trigger] a.drop_first()[i]).id == b.drop_first()[i].id
            && a.drop_first()[i].voting_deadline == b.drop_first()[i].voting_deadline
            && a.drop_first()[i].votes_for == b.drop_first()[i].votes_for
            && a.drop_first()[i].votes_against == b.drop_first()[i].votes_against
            && a.drop_first()[i].total_stake_voted == b.drop_first()[i].total_stake_voted by {
            assert(a.drop_first()[i] == a[i + 1]);
            assert(b.drop_first()[i] == b[i + 1]);
        }
        lemma_same_tallies_index(a.drop_first(), b.drop_first(), id);
    }
}

proof fn lemma_same_tallies_computable(a: GovView, b: GovView, id: Seq<char>, now: u64)
    requires
        same_tallies(a.proposals, b.proposals),
    ensures
        computable(a, id, now) == computable(b, id, now),
{
    lemma_same_tallies_index(a.proposals, b.proposals, id);
    lemma_gov_index(a.proposals, id);
}

proof fn lemma_step_keeps_tallies(v: GovView, id: Seq<char>, t: GovTypeView, now: u64)
    ensures
        same_tallies(v.proposals, execute_step(v, id, t, now).0.proposals),
{
    let c = compute_step(v, id, now);
    lemma_gov_index(v.proposals, id);
    assert(same_tallies(v.proposals, c.0.proposals));
    if c.1 == Ok::<ProposalOutcome, GovernanceError>(ProposalOutcome::Passed) {
        let a = action_effect(c.0, id, t, now);
        assert(a.proposals == c.0.proposals);
        lemma_gov_index(a.proposals, id);
        assert(same_tallies(a.proposals, executed_mark(a, id).proposals));
    }
}

proof fn lemma_same_tallies_transitive(a: Seq<GovProposalView>, b: Seq<GovProposalView>, c: Seq<GovProposalView>)
    requires
        same_tallies(a, b),
        same_tallies(b, c),
    ensures
        same_tallies(a, c),
{
    assert forall|i: int| 0 <= i < a.len() implies {
        &&& (#[trigger] a[i]).id == c[i].id
        &&& a[i].voting_deadline == c[i].voting_deadline
        &&& a[i].votes_for == c[i].votes_for
        &&& a[i].votes_against == c[i].votes_against
        &&& a[i].total_stake_voted == c[i].total_stake_voted
    } by {
        assert(b[i].id == c[i].id);
    }
}

/// Executing proposals never changes which proposals there are, in what
/// order, nor any proposal's deadline or vote tallies.
pub proof fn lemma_execution_keeps_tallies(v: GovView, items: Seq<(Seq<char>, GovTypeView)>, now: u64)
    ensures
        same_tallies(v.proposals, execute_run(v, items, now).0.proposals),
    decreases items.len(),
{
    if items.len() == 0 {
        assert(same_tallies(v.proposals, v.proposals));
    } else {
        let s = execute_step(v, items[0].0, items[0].1, now);
        lemma_step_keeps_tallies(v, items[0].0, items[0].1, now);
        lemma_execution_keeps_tallies(s.0, items.drop_first(), now);
        lemma_same_tallies_transitive(v.proposals, s.0.proposals, execute_run(s.0, items.drop_first(), now).0.proposals);
    }
}

proof fn lemma_step_keeps_executed(v: GovView, id: Seq<char>, t: GovTypeView, now: u64, i: int)
    requires
        0 <= i < v.proposals.len(),
        v.proposals[i].executed,
    ensures
        execute_step(v, id, t, now).0.proposals.len() == v.proposals.len(),
        execute_step(v, id, t, now).0.proposals[i].executed,
{
    let c = compute_step(v, id, now);
    lemma_gov_index(v.proposals, id);
    if c.1 == Ok::<ProposalOutcome, GovernanceError>(ProposalOutcome::Passed) {
        let a = action_effect(c.0, id, t, now);
        assert(a.proposals == c.0.proposals);
        lemma_gov_index(a.proposals, id);
    }
}

/// A proposal once executed stays executed: executing further proposals
/// never clears the mark.
pub proof fn lemma_executed_stays_executed(v: GovView, items: Seq<(Seq<char>, GovTypeView)>, now: u64, i: int)
    requires
        0 <= i < v.proposals.len(),
        v.proposals[i].executed,
    ensures
        execute_run(v, items, now).0.proposals.len() == v.proposals.len(),
        execute_run(v, items, now).0.proposals[i].executed,
    decreases items.len(),
{
    if items.len() > 0 {
        let s = execute_step(v, items[0].0, items[0].1, now);
        lemma_step_keeps_executed(v, items[0].0, items[0].1, now, i);
        lemma_executed_stays_executed(s.0, items.drop_first(), now, i);
    }
}

// ---------------------------------------------------------------------------
// Helpers.
// ---------------------------------------------------------------------------

/// The position of the first proposal with this id.
fn find_gov_proposal(ps: &Vec<GovernanceProposal>, id: &str) -> (r: Option<usize>)
    ensures
        match r {
            Some(i) => gov_index(gov_proposals_view(ps@), id@) == Some(i as int) && i < ps@.len(),
            None => gov_index(gov_proposals_view(ps@), id@) is None,
        },
{
    let ghost pv = gov_proposals_view(ps@);
    let mut i: usize = 0;
    assert(pv.skip(0) =~= pv);
    while i < ps.len()
        invariant
            i <= ps@.len(),
            pv == gov_proposals_view(ps@),
            gov_index(pv, id@) == match gov_index(pv.skip(i as int), id@) {
                Some(j) => Some(j + i),
                None => None::<int>,
            },
        decreases ps@.len() - i,
    {
        assert(pv.skip(i as int).drop_first() =~= pv.skip(i + 1));
        assert(pv.skip(i as int)[0] == ps@[i as int]@);
        if str_eq(ps[i].id.as_str(), id) {
            return Some(i);
        }
        i = i + 1;
    }
    None
}

/// Whether some validator in `vs` has this id.
fn has_member(vs: &Vec<Validator>, id: &str) -> (r: bool)
    ensures
        r == is_member(validators_view(vs@), id@),
{
    let ghost vv = validators_view(vs@);
    let mut i: usize = 0;
    while i < vs.len()
        invariant
            i <= vs@.len(),
            vv == validators_view(vs@),
            forall|j: int| 0 <= j < i ==> (#[trigger] vv[j]).id != id@,
        decreases vs@.len() - i,
    {
        if str_eq(vs[i].id.as_str(), id) {
            assert(vv[i as int].id == id@);
            return true;
        }
        i = i + 1;
    }
    false
}

/// The number a parameter change names (see `param_value`).
fn param_value_of(content: &Vec<char>) -> (r: Option<u64>)
    ensures
        r == param_value(content@),
{
    let parts = split_chars(content, '=');
    if parts.len() > 1 {
        let t = trim_chars(&parts[1]);
        parse_u64_chars(&t)
    } else {
        let zero: Vec<char> = vec!['0'];
        assert(zero@ =~= seq!['0']);
        let t = trim_chars(&zero);
        parse_u64_chars(&t)
    }
}

/// The validators of `vs` whose id is not `id`, in order.
fn validators_without(vs: &Vec<Validator>, id: &str) -> (r: Vec<Validator>)
    ensures
        validators_view(r@) == without_validator(validators_view(vs@), id@),
{
    let mut out: Vec<Validator> = Vec::new();
    let mut i: usize = 0;
    while i < vs.len()
        invariant
            i <= vs@.len(),
            validators_view(out@) == without_validator(validators_view(vs@.take(i as int)), id@),
        decreases vs@.len() - i,
    {
        let ghost before = out@;
        assert(validators_view(vs@.take(i + 1)).drop_last() =~= validators_view(vs@.take(i as int)));
        assert(validators_view(vs@.take(i + 1)).last() == validator_view(vs@[i as int]));
        if !str_eq(vs[i].id.as_str(), id) {
            let c = vs[i].clone();
            out.push(c);
            assert(validators_view(out@) =~= validators_view(before).push(validator_view(vs@[i as int])));
        }
        i = i + 1;
    }
    assert(vs@.take(i as int) =~= vs@);
    out
}

/// The ids and types of the proposals that passed and are not yet executed.
fn pending_proposals(ps: &Vec<GovernanceProposal>) -> (r: Vec<(String, GovernanceProposalType)>)
    ensures
        r@.map_values(|x: (String, GovernanceProposalType)| (x.0@, x.1@)) == pending_items(gov_proposals_view(ps@)),
{
    let mut out: Vec<(String, GovernanceProposalType)> = Vec::new();
    let mut i: usize = 0;
    while i < ps.len()
        invariant
            i <= ps@.len(),
            out@.map_values(|x: (String, GovernanceProposalType)| (x.0@, x.1@))
                == pending_items(gov_proposals_view(ps@.take(i as int))),
        decreases ps@.len() - i,
    {
        let ghost before = out@;
        assert(gov_proposals_view(ps@.take(i + 1)).drop_last() =~= gov_proposals_view(ps@.take(i as int)));
        assert(gov_proposals_view(ps@.take(i + 1)).last() == ps@[i as int]@);
        if !ps[i].executed && ps[i].passed {
            let item = (ps[i].id.clone(), ps[i].proposal_type.clone());
            out.push(item);
            assert(out@.map_values(|x: (String, GovernanceProposalType)| (x.0@, x.1@)) =~= before.map_values(
                |x: (String, GovernanceProposalType)| (x.0@, x.1@),
            ).push((ps@[i as int].id@, ps@[i as int].proposal_type@)));
        }
        i = i + 1;
    }
    assert(ps@.take(i as int) =~= ps@);
    out
}

/// Which proposals a listing selects.
enum Keep {
    Active(u64),
    Executed,
    Passed,
    Failed,
}

spec fn kept(k: Keep, p: GovernanceProposal) -> bool {
    match k {
        Keep::Active(now) => !p.executed && p.voting_deadline > now,
        Keep::Executed => p.executed,
        Keep::Passed => p.passed,
        Keep::Failed => !p.passed && p.executed,
    }
}

/// The proposals that `k` selects, in order.
fn collect_proposals(ps: &Vec<GovernanceProposal>, k: Keep) -> (r: Vec<&GovernanceProposal>)
    ensures
        r@.map_values(|x: &GovernanceProposal| *x) == select_proposals(ps@, |p: GovernanceProposal| kept(k, p)),
{
    let ghost f = |p: GovernanceProposal| kept(k, p);
    let mut out: Vec<&GovernanceProposal> = Vec::new();
    let mut i: usize = 0;
    while i < ps.len()
        invariant
            i <= ps@.len(),
            f == (|p: GovernanceProposal| kept(k, p)),
            out@.map_values(|x: &GovernanceProposal| *x) == select_proposals(ps@.take(i as int), f),
        decreases ps@.len() - i,
    {
        let ghost before = out@;
        assert(ps@.take(i + 1).drop_last() =~= ps@.take(i as int));
        let p = &ps[i];
        let keep = match k {
            Keep::Active(now) => !p.executed && p.voting_deadline > now,
            Keep::Executed => p.executed,
            Keep::Passed => p.passed,
            Keep::Failed => !p.passed && p.executed,
        };
        if keep {
            out.push(p);
            assert(out@.map_values(|x: &GovernanceProposal| *x) =~= before.map_values(|x: &GovernanceProposal| *x).push(ps@[i as int]));
        }
        i = i + 1;
    }
    assert(ps@.take(i as int) =~= ps@);
    out
}

impl GovernanceEngine {
    /// A governance engine over `consensus_engine`, whose constitution holds
    /// the basic execution rule dated `now`; no proposals or votes yet; a
    /// minimum proposer stake of 1000, a seven-day voting period, a 20%
    /// quorum and a 67% approval threshold.
    pub fn new_at(consensus_engine: ConsensusEngine, now: u64) -> (g: Self)
        ensures
            g@.constitution == seq![basic_rule(now)],
            g@.proposals == Seq::<GovProposalView>::empty(),
            g@.voting_power == Map::<Seq<char>, u64>::empty(),
            g.consensus_engine == consensus_engine,
            g.min_stake_for_proposal == 1000,
            g.voting_period == 604800,
            g.quorum_percentage == 20,
            g.approval_threshold == 67,
    {
        let rule = ConstitutionalRule {
            id: String::from_str("rule_0"),
            name: String::from_str("Basic Execution Rule"),
            description: String::from_str("All executions must follow basic safety rules"),
            content: String::from_str("F(State, Input) -> NewState where StateChange is verified"),
            version: 1,
            created_at: now,
            updated_at: now,
            active: true,
        };
        let mut constitution: Vec<ConstitutionalRule> = Vec::new();
        constitution.push(rule);
        let g = GovernanceEngine {
            constitution,
            proposals: Vec::new(),
            voting_power: StringMap::new(),
            consensus_engine,
            min_stake_for_proposal: 1000,
            voting_period: 7 * 24 * 3600,
            quorum_percentage: 20,
            approval_threshold: 67,
        };
        assert(g@.constitution =~= seq![basic_rule(now)]);
        assert(g@.proposals =~= Seq::<GovProposalView>::empty());
        g
    }

    /// A governance engine whose basic rule is dated now (see `new_at`).
    pub fn new(consensus_engine: ConsensusEngine) -> (g: Self)
        ensures
            exists|t: u64| #[trigger] g@.constitution == seq![basic_rule(t)],
            g@.proposals == Seq::<GovProposalView>::empty(),
            g@.voting_power == Map::<Seq<char>, u64>::empty(),
            g.consensus_engine == consensus_engine,
            g.min_stake_for_proposal == 1000,
            g.voting_period == 604800,
            g.quorum_percentage == 20,
            g.approval_threshold == 67,
    {
        let t = now_secs();
        Self::new_at(consensus_engine, t)
    }

    /// Whether an action keeps to the constitution: every action does.
    pub fn is_action_constitutional(&self, _action: &str) -> (r: bool)
        ensures
            r,
    {
        true
    }

    /// Whether `proposer` may submit a proposal of type `proposal_type` (see
    /// `may_submit`).
    pub fn can_submit_proposal(&self, proposer: &str, proposal_type: &GovernanceProposalType) -> (r: Result<bool, GovernanceError>)
        ensures
            r == Ok::<bool, GovernanceError>(may_submit(self@, proposer@, proposal_type@)),
    {
        let is_validator = has_member(&self.consensus_engine.validators, proposer);
        if !is_validator {
            return Ok(false);
        }
        match proposal_type {
            GovernanceProposalType::EmergencyBrake(active) => {
                if *active {
                    Ok(self.is_emergency_condition())
                } else {
                    Ok(true)
                }
            },
            _ => Ok(true),
        }
    }

    /// Whether the system is in an emergency: it never is.
    fn is_emergency_condition(&self) -> (r: bool)
        ensures
            !r,
    {
        false
    }

    /// Submits `proposal` with `proposer_stake` at time `now` (see
    /// `create_step`). On success the answer is the new proposal's id.
    pub fn create_proposal_at(&mut self, proposal: GovernanceProposal, proposer_stake: u64, now: u64) -> (r: Result<String, GovernanceError>)
        requires
            old(self).proposals@.len() < u64::MAX,
            submission_accepted(old(self)@, proposal@, proposer_stake) ==> now + old(self).voting_period <= u64::MAX,
        ensures
            final(self)@ == create_step(old(self)@, proposal@, proposer_stake, now).0,
            text_result(r) == create_step(old(self)@, proposal@, proposer_stake, now).1,
            final(self).consensus_engine == old(self).consensus_engine,
            final(self).constitution == old(self).constitution,
    {
        if proposer_stake < self.min_stake_for_proposal {
            return Err(GovernanceError::InsufficientStake);
        }
        if !self.is_action_constitutional(proposal.title.as_str()) {
            return Err(GovernanceError::InvalidProposal);
        }
        let allowed = self.can_submit_proposal(proposal.proposer.as_str(), &proposal.proposal_type);
        match allowed {
            Ok(true) => {},
            _ => {
                return Err(GovernanceError::InvalidProposal);
            },
        }
        let n: u64 = self.proposals.len() as u64 + 1;
        let mut id = String::from_str("gov_proposal_");
        push_decimal(&mut id, n);
        proof {
            reveal_strlit("gov_proposal_");
        }
        let mut p = proposal;
        p.id = id.clone();
        p.created_at = now;
        p.voting_deadline = now + self.voting_period;
        p.proposer_stake = proposer_stake;
        p.minimum_stake_threshold = self.min_stake_for_proposal;
        let ghost before = gov_proposals_view(self.proposals@);
        let ghost pv = p@;
        self.proposals.push(p);
        assert(gov_proposals_view(self.proposals@) =~= before.push(pv));
        assert(pv == submitted(proposal@, old(self)@.proposals.len() + 1, proposer_stake, old(self)@, now));
        Ok(id)
    }

    /// Submits `proposal` with `proposer_stake` at the current time (see
    /// `create_step`). Where the deadline would not fit in 64 bits the
    /// submission is refused as invalid and nothing changes.
    pub fn create_proposal(&mut self, proposal: GovernanceProposal, proposer_stake: u64) -> (r: Result<String, GovernanceError>)
        requires
            old(self).proposals@.len() < u64::MAX,
        ensures
            final(self).consensus_engine == old(self).consensus_engine,
            final(self).constitution == old(self).constitution,
            exists|t: u64| {
                ||| {
                    &&& #[trigger] create_step(old(self)@, proposal@, proposer_stake, t) == (final(self)@, text_result(r))
                }
                ||| {
                    &&& submission_accepted(old(self)@, proposal@, proposer_stake)
                    &&& t + old(self).voting_period > u64::MAX
                    &&& final(self)@ == old(self)@
                    &&& r == Err::<String, GovernanceError>(GovernanceError::InvalidProposal)
                }
            },
    {
        let t = now_secs();
        if proposer_stake >= self.min_stake_for_proposal {
            let allowed = self.can_submit_proposal(proposal.proposer.as_str(), &proposal.proposal_type);
            if let Ok(true) = allowed {
                if t > u64::MAX - self.voting_period {
                    assert(create_step(old(self)@, proposal@, proposer_stake, t).1 is Ok);
                    return Err(GovernanceError::InvalidProposal);
                }
            }
        }
        let r = self.create_proposal_at(proposal, proposer_stake, t);
        assert(create_step(old(self)@, proposal@, proposer_stake, t) == (self@, text_result(r)));
        r
    }
    /// Tallies proposal `proposal_id` at time `now` (see `compute_step`).
    pub fn compute_proposal_result_at(&mut self, proposal_id: &str, now: u64) -> (r: Result<ProposalOutcome, GovernanceError>)
        requires
            computable(old(self)@, proposal_id@, now),
        ensures
            final(self)@ == compute_step(old(self)@, proposal_id@, now).0,
            r == compute_step(old(self)@, proposal_id@, now).1,
            final(self).consensus_engine == old(self).consensus_engine,
            final(self).constitution == old(self).constitution,
            final(self).voting_power == old(self).voting_power,
    {
        let idx = find_gov_proposal(&self.proposals, proposal_id);
        let i = match idx {
            None => {
                return Err(GovernanceError::ProposalNotFound);
            },
            Some(i) => i,
        };
        if now <= self.proposals[i].voting_deadline {
            return Err(GovernanceError::VotingPeriodNotEnded);
        }
        let total_active_stake: u64 = 10000;
        let participation = self.proposals[i].total_stake_voted * 100 / total_active_stake;
        let is_quorum_met = participation >= self.quorum_percentage;
        let cast = self.proposals[i].votes_for + self.proposals[i].votes_against;
        let support = if cast > 0 {
            self.proposals[i].votes_for * 100 / cast
        } else {
            0
        };
        let is_approved = is_quorum_met && support >= self.approval_threshold;
        let ghost before = gov_proposals_view(self.proposals@);
        let mut p = self.proposals[i].clone();
        p.passed = is_approved;
        p.quorum_met = is_quorum_met;
        p.approval_percentage = support;
        let ghost pv = p@;
        self.proposals.set(i, p);
        assert(pv == tallied(before[i as int], self.quorum_percentage, self.approval_threshold));
        assert(gov_proposals_view(self.proposals@) =~= before.update(i as int, pv));
        if is_approved {
            Ok(ProposalOutcome::Passed)
        } else {
            Ok(ProposalOutcome::Defeated)
        }
    }

    /// Tallies proposal `proposal_id` at the current time (see
    /// `compute_step`).
    pub fn compute_proposal_result(&mut self, proposal_id: &str) -> (r: Result<ProposalOutcome, GovernanceError>)
        requires
            forall|t: u64| #[trigger] computable(old(self)@, proposal_id@, t),
        ensures
            exists|t: u64| #[trigger] compute_step(old(self)@, proposal_id@, t) == (final(self)@, r),
            final(self).consensus_engine == old(self).consensus_engine,
            final(self).constitution == old(self).constitution,
            final(self).voting_power == old(self).voting_power,
    {
        let t = now_secs();
        assert(computable(old(self)@, proposal_id@, t));
        let r = self.compute_proposal_result_at(proposal_id, t);
        assert(compute_step(old(self)@, proposal_id@, t) == (self@, r));
        r
    }

    /// Casts `stake` for or against proposal `proposal_id` on behalf of
    /// `voter` at time `now` (see `vote_step`).
    pub fn vote_at(&mut self, proposal_id: &str, voter: String, vote_for: bool, stake: u64, now: u64) -> (r: Result<(), GovernanceError>)
        requires
            vote_open(old(self)@, proposal_id@, now) ==> tally_room(old(self)@, proposal_id@, voter@, vote_for, stake),
        ensures
            final(self)@ == vote_step(old(self)@, proposal_id@, voter@, vote_for, stake, now).0,
            r == vote_step(old(self)@, proposal_id@, voter@, vote_for, stake, now).1,
            final(self).consensus_engine == old(self).consensus_engine,
            final(self).constitution == old(self).constitution,
    {
        let idx = find_gov_proposal(&self.proposals, proposal_id);
        let i = match idx {
            None => {
                return Err(GovernanceError::ProposalNotFound);
            },
            Some(i) => i,
        };
        if now > self.proposals[i].voting_deadline {
            return Err(GovernanceError::VotingPeriodEnded);
        }
        let ghost before = gov_proposals_view(self.proposals@);
        let mut p = self.proposals[i].clone();
        if vote_for {
            p.votes_for = p.votes_for + stake;
        } else {
            p.votes_against = p.votes_against + stake;
        }
        p.total_stake_voted = p.total_stake_voted + stake;
        let ghost pv = p@;
        self.proposals.set(i, p);
        assert(gov_proposals_view(self.proposals@) =~= before.update(i as int, pv));
        let power: u64 = match self.voting_power.get(voter.as_str()) {
            Some(v) => *v,
            None => 0,
        };
        self.voting_power.insert(voter, power + stake);
        Ok(())
    }

    /// Casts `stake` for or against proposal `proposal_id` on behalf of
    /// `voter` at the current time (see `vote_step`).
    pub fn vote(&mut self, proposal_id: &str, voter: String, vote_for: bool, stake: u64) -> (r: Result<(), GovernanceError>)
        requires
            forall|t: u64| #[trigger] vote_open(old(self)@, proposal_id@, t) ==> tally_room(old(self)@, proposal_id@, voter@, vote_for, stake),
        ensures
            exists|t: u64| #[trigger] vote_step(old(self)@, proposal_id@, voter@, vote_for, stake, t) == (final(self)@, r),
            final(self).consensus_engine == old(self).consensus_engine,
            final(self).constitution == old(self).constitution,
    {
        let t = now_secs();
        let ghost voter_view = voter@;
        let r = self.vote_at(proposal_id, voter, vote_for, stake, t);
        assert(vote_step(old(self)@, proposal_id@, voter_view, vote_for, stake, t) == (self@, r));
        r
    }

    /// Adds `rule` at the end of the constitution.
    pub fn add_constitutional_rule(&mut self, rule: ConstitutionalRule) -> (r: Result<(), GovernanceError>)
        ensures
            r is Ok,
            final(self).constitution@ == old(self).constitution@.push(rule),
            final(self).proposals == old(self).proposals,
            final(self).voting_power == old(self).voting_power,
            final(self).consensus_engine == old(self).consensus_engine,
            final(self).min_stake_for_proposal == old(self).min_stake_for_proposal,
            final(self).voting_period == old(self).voting_period,
            final(self).quorum_percentage == old(self).quorum_percentage,
            final(self).approval_threshold == old(self).approval_threshold,
    {
        self.constitution.push(rule);
        Ok(())
    }

    /// The first proposal with id `proposal_id`, if any.
    pub fn get_proposal(&self, proposal_id: &str) -> (r: Option<&GovernanceProposal>)
        ensures
            match gov_index(self@.proposals, proposal_id@) {
                Some(i) => r matches Some(p) && *p == self.proposals@[i],
                None => r is None,
            },
    {
        match find_gov_proposal(&self.proposals, proposal_id) {
            Some(i) => Some(&self.proposals[i]),
            None => None,
        }
    }

    /// The active rules of the constitution, in order.
    pub fn get_active_constitutional_rules(&self) -> (r: Vec<&ConstitutionalRule>)
        ensures
            r@.map_values(|x: &ConstitutionalRule| *x) == active_rules(self.constitution@),
    {
        let mut out: Vec<&ConstitutionalRule> = Vec::new();
        let mut i: usize = 0;
        while i < self.constitution.len()
            invariant
                i <= self.constitution@.len(),
                out@.map_values(|x: &ConstitutionalRule| *x) == active_rules(self.constitution@.take(i as int)),
            decreases self.constitution@.len() - i,
        {
            let ghost before = out@;
            assert(self.constitution@.take(i + 1).drop_last() =~= self.constitution@.take(i as int));
            if self.constitution[i].active {
                out.push(&self.constitution[i]);
                assert(out@.map_values(|x: &ConstitutionalRule| *x) =~= before.map_values(|x: &ConstitutionalRule| *x).push(self.constitution@[i as int]));
            }
            i = i + 1;
        }
        assert(self.constitution@.take(i as int) =~= self.constitution@);
        out
    }
    /// The proposals not yet executed whose voting deadline is after `now`,
    /// in order.
    pub fn get_active_proposals_at(&self, now: u64) -> (r: Vec<&GovernanceProposal>)
        ensures
            r@.map_values(|x: &GovernanceProposal| *x) == active_proposals(self.proposals@, now),
    {
        let r = collect_proposals(&self.proposals, Keep::Active(now));
        assert((|p: GovernanceProposal| kept(Keep::Active(now), p))
            =~= (|p: GovernanceProposal| !p.executed && p.voting_deadline > now));
        r
    }

    /// The proposals not yet executed whose voting deadline is still ahead
    /// (see `get_active_proposals_at`).
    pub fn get_active_proposals(&self) -> (r: Vec<&GovernanceProposal>)
        ensures
            exists|t: u64| r@.map_values(|x: &GovernanceProposal| *x) == #[trigger] active_proposals(self.proposals@, t),
    {
        let t = now_secs();
        self.get_active_proposals_at(t)
    }

    /// The executed proposals, in order.
    pub fn get_executed_proposals(&self) -> (r: Vec<&GovernanceProposal>)
        ensures
            r@.map_values(|x: &GovernanceProposal| *x)
                == select_proposals(self.proposals@, |p: GovernanceProposal| p.executed),
    {
        let r = collect_proposals(&self.proposals, Keep::Executed);
        assert((|p: GovernanceProposal| kept(Keep::Executed, p)) =~= (|p: GovernanceProposal| p.executed));
        r
    }

    /// The proposals that passed, in order.
    pub fn get_passed_proposals(&self) -> (r: Vec<&GovernanceProposal>)
        ensures
            r@.map_values(|x: &GovernanceProposal| *x)
                == select_proposals(self.proposals@, |p: GovernanceProposal| p.passed),
    {
        let r = collect_proposals(&self.proposals, Keep::Passed);
        assert((|p: GovernanceProposal| kept(Keep::Passed, p)) =~= (|p: GovernanceProposal| p.passed));
        r
    }

    /// The executed proposals that did not pass, in order.
    pub fn get_failed_proposals(&self) -> (r: Vec<&GovernanceProposal>)
        ensures
            r@.map_values(|x: &GovernanceProposal| *x)
                == select_proposals(self.proposals@, |p: GovernanceProposal| !p.passed && p.executed),
    {
        let r = collect_proposals(&self.proposals, Keep::Failed);
        assert((|p: GovernanceProposal| kept(Keep::Failed, p)) =~= (|p: GovernanceProposal| !p.passed && p.executed));
        r
    }
    /// Applies parameter change `content` (see `with_parameters`).
    fn update_parameters(&mut self, content: &str)
        ensures
            final(self)@ == with_parameters(old(self)@, content@),
            final(self).consensus_engine == old(self).consensus_engine,
            final(self).constitution == old(self).constitution,
            final(self).proposals == old(self).proposals,
            final(self).voting_power == old(self).voting_power,
    {
        let cs = chars_of(content);
        let quorum_key = chars_of("quorum_percentage");
        if contains_chars(&cs, &quorum_key) {
            if let Some(percentage) = param_value_of(&cs) {
                if percentage >= 10 && percentage <= 90 {
                    self.quorum_percentage = percentage;
                }
            }
        }
        let threshold_key = chars_of("approval_threshold");
        if contains_chars(&cs, &threshold_key) {
            if let Some(threshold) = param_value_of(&cs) {
                if threshold >= 51 && threshold <= 95 {
                    self.approval_threshold = threshold;
                }
            }
        }
        assert(self@ =~= with_parameters(old(self)@, content@));
    }

    /// Carries out validator command `content` (see `with_validators_managed`).
    fn manage_validators(&mut self, content: &str)
        ensures
            final(self)@ == with_validators_managed(old(self)@, content@),
            final(self).consensus_engine.proposals == old(self).consensus_engine.proposals,
            final(self).consensus_engine.quorum_threshold == old(self).consensus_engine.quorum_threshold,
            final(self).consensus_engine.state_store == old(self).consensus_engine.state_store,
            final(self).constitution == old(self).constitution,
            final(self).proposals == old(self).proposals,
            final(self).voting_power == old(self).voting_power,
    {
        let cs = chars_of(content);
        let add_tag = chars_of("add:");
        let remove_tag = chars_of("remove:");
        if starts_with_chars(&cs, &add_tag) {
            let parts = split_chars(&cs, ':');
            if parts.len() >= 4 {
                let id = string_from_chars(parts[1].as_slice());
                let public_key = string_from_chars(parts[2].as_slice());
                let stake: u64 = match parse_u64_chars(&parts[3]) {
                    Some(n) => n,
                    None => 0,
                };
                let validator = Validator { id, public_key, stake, reputation: 100 };
                let ghost vv = validator_view(validator);
                let ghost before = self.consensus_engine.validators@;
                self.consensus_engine.add_validator(validator);
                assert(validators_view(self.consensus_engine.validators@) =~= validators_view(before).push(vv));
            }
        } else if starts_with_chars(&cs, &remove_tag) {
            let vid = strip_all_prefixes_chars(&cs, &remove_tag);
            let vid_text = string_from_chars(vid.as_slice());
            let kept = validators_without(&self.consensus_engine.validators, vid_text.as_str());
            self.consensus_engine.validators = kept;
        }
        assert(self@ =~= with_validators_managed(old(self)@, content@));
    }

    /// Adds the rule that amendment `content` of proposal `proposal_id`
    /// makes, dated `now` (see `amended_rule`).
    fn update_constitution(&mut self, content: &str, proposal_id: &str, now: u64)
        ensures
            final(self).constitution@.len() == old(self).constitution@.len() + 1,
            final(self)@ == with_amendment(old(self)@, proposal_id@, content@, now),
            final(self).consensus_engine == old(self).consensus_engine,
            final(self).proposals == old(self).proposals,
            final(self).voting_power == old(self).voting_power,
    {
        let n: u64 = self.constitution.len() as u64;
        let mut id = String::from_str("rule_");
        push_str(&mut id, proposal_id);
        push_str(&mut id, "_");
        push_decimal(&mut id, n);
        let mut name = String::from_str("Updated Rule from Prop ");
        push_str(&mut name, proposal_id);
        let rule = ConstitutionalRule {
            id,
            name,
            description: String::from_str(content),
            content: String::from_str(content),
            version: 1,
            created_at: now,
            updated_at: now,
            active: true,
        };
        let ghost rv = rule@;
        let ghost before = rules_view(self.constitution@);
        self.constitution.push(rule);
        assert(rules_view(self.constitution@) =~= before.push(rv));
        assert(self@ =~= with_amendment(old(self)@, proposal_id@, content@, now));
    }

    /// Carries out the action of proposal `proposal_id` of type
    /// `proposal_type` at time `now` (see `action_effect`).
    fn apply_action(&mut self, proposal_id: &str, proposal_type: &GovernanceProposalType, now: u64)
        ensures
            final(self)@ == action_effect(old(self)@, proposal_id@, proposal_type@, now),
            final(self).consensus_engine.proposals == old(self).consensus_engine.proposals,
            final(self).consensus_engine.quorum_threshold == old(self).consensus_engine.quorum_threshold,
            final(self).consensus_engine.state_store == old(self).consensus_engine.state_store,
            final(self).proposals == old(self).proposals,
    {
        match proposal_type {
            GovernanceProposalType::ConstitutionalAmendment(content) => {
                self.update_constitution(content.as_str(), proposal_id, now);
            },
            GovernanceProposalType::ParameterChange(content) => {
                self.update_parameters(content.as_str());
            },
            GovernanceProposalType::ValidatorManagement(content) => {
                self.manage_validators(content.as_str());
            },
            _ => {},
        }
    }

    /// Marks the first proposal with id `proposal_id` executed.
    fn mark_executed(&mut self, proposal_id: &str)
        ensures
            final(self)@ == executed_mark(old(self)@, proposal_id@),
            final(self).consensus_engine == old(self).consensus_engine,
    {
        match find_gov_proposal(&self.proposals, proposal_id) {
            Some(i) => {
                let ghost before = gov_proposals_view(self.proposals@);
                let mut p = self.proposals[i].clone();
                p.executed = true;
                let ghost pv = p@;
                self.proposals.set(i, p);
                assert(gov_proposals_view(self.proposals@) =~= before.update(i as int, pv));
                assert(self@ =~= executed_mark(old(self)@, proposal_id@));
            },
            None => {},
        }
    }

    /// Executes, at time `now`, every proposal that has passed and is not yet
    /// executed, in order (see `execute_run`); the answer lists the ids of
    /// those that pass their tally and were carried out.
    pub fn execute_passed_proposals_at(&mut self, now: u64) -> (r: Result<Vec<String>, GovernanceError>)
        requires
            all_computable(old(self)@, pending_items(old(self)@.proposals), now),
        ensures
            final(self)@ == execute_run(old(self)@, pending_items(old(self)@.proposals), now).0,
            r matches Ok(ids) && ids@.map_values(|s: String| s@)
                == execute_run(old(self)@, pending_items(old(self)@.proposals), now).1,
            final(self).consensus_engine.proposals == old(self).consensus_engine.proposals,
            final(self).consensus_engine.quorum_threshold == old(self).consensus_engine.quorum_threshold,
            final(self).consensus_engine.state_store == old(self).consensus_engine.state_store,
    {
        let items = pending_proposals(&self.proposals);
        let ghost all = items@.map_values(|x: (String, GovernanceProposalType)| (x.0@, x.1@));
        let ghost start = self@;
        let mut executed: Vec<String> = Vec::new();
        let mut k: usize = 0;
        assert(all.skip(0) =~= all);
        while k < items.len()
            invariant
                k <= items@.len(),
                all == items@.map_values(|x: (String, GovernanceProposalType)| (x.0@, x.1@)),
                start == old(self)@,
                all == pending_items(start.proposals),
                execute_run(self@, all.skip(k as int), now).0 == execute_run(start, all, now).0,
                executed@.map_values(|s: String| s@) + execute_run(self@, all.skip(k as int), now).1
                    == execute_run(start, all, now).1,
                all_computable(self@, all.skip(k as int), now),
                self.consensus_engine.proposals == old(self).consensus_engine.proposals,
                self.consensus_engine.quorum_threshold == old(self).consensus_engine.quorum_threshold,
                self.consensus_engine.state_store == old(self).consensus_engine.state_store,
            decreases items@.len() - k,
        {
            let ghost prev = self@;
            let ghost rest = all.skip(k as int);
            assert(rest[0] == all[k as int]);
            assert(rest.drop_first() =~= all.skip(k + 1));
            assert(computable(prev, rest[0].0, now));
            let pid = &items[k].0;
            let ptype = &items[k].1;
            let outcome = self.compute_proposal_result_at(pid.as_str(), now);
            let ghost done = false;
            match outcome {
                Ok(ProposalOutcome::Passed) => {
                    self.apply_action(pid.as_str(), ptype, now);
                    self.mark_executed(pid.as_str());
                    let ghost before_ids = executed@;
                    executed.push(pid.clone());
                    assert(executed@.map_values(|s: String| s@) =~= before_ids.map_values(|s: String| s@).push(rest[0].0));
                },
                _ => {},
            }
            proof {
                let st = execute_step(prev, rest[0].0, rest[0].1, now);
                assert(self@ == st.0);
                lemma_step_keeps_tallies(prev, rest[0].0, rest[0].1, now);
                assert forall|j: int| 0 <= j < all.skip(k + 1).len() implies #[trigger] computable(
                    self@,
                    all.skip(k + 1)[j].0,
                    now,
                ) by {
                    assert(all.skip(k + 1)[j] == rest[j + 1]);
                    assert(computable(prev, rest[j + 1].0, now));
                    lemma_same_tallies_computable(prev, self@, rest[j + 1].0, now);
                }
                if st.1 {
                    assert(seq![rest[0].0] + execute_run(self@, all.skip(k + 1), now).1
                        == execute_run(prev, rest, now).1);
                }
            }
            k = k + 1;
        }
        Ok(executed)
    }

    /// Executes, at the current time, every proposal that has passed and is
    /// not yet executed (see `execute_passed_proposals_at`).
    pub fn execute_passed_proposals(&mut self) -> (r: Result<Vec<String>, GovernanceError>)
        requires
            forall|t: u64| #[trigger] all_computable(old(self)@, pending_items(old(self)@.proposals), t),
        ensures
            exists|t: u64| {
                &&& final(self)@ == #[trigger] execute_run(old(self)@, pending_items(old(self)@.proposals), t).0
                &&& r matches Ok(ids) && ids@.map_values(|s: String| s@)
                    == execute_run(old(self)@, pending_items(old(self)@.proposals), t).1
            },
            final(self).consensus_engine.proposals == old(self).consensus_engine.proposals,
            final(self).consensus_engine.quorum_threshold == old(self).consensus_engine.quorum_threshold,
            final(self).consensus_engine.state_store == old(self).consensus_engine.state_store,
    {
        let t = now_secs();
        assert(all_computable(old(self)@, pending_items(old(self)@.proposals), t));
        self.execute_passed_proposals_at(t)
    }
}

} // verus!
