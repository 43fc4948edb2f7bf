//! Governance policies: named parameter sets with a change history, and a
//! compliance check of proposals against the policy rules.
use vstd::prelude::*;

use crate::clock::now_secs;
use crate::collections::StringMap;
use crate::consensus::Validator;
use crate::governance::{GovProposalView, GovTypeView, GovernanceProposal, GovernanceProposalType};
use crate::text::str_eq;

verus! {

/// What a policy governs.
#[derive(Debug, Clone, Copy, PartialEq, Eq, Structural)]
pub enum PolicyType {
    VotingRules,
    TreasuryManagement,
    ValidatorSelection,
    EmergencyProtocols,
    ParameterAdjustment,
    UpgradeProcesses,
}

/// A governance policy and its parameters.
#[derive(Debug)]
pub struct GovernancePolicy {
    pub id: String,
    pub name: String,
    pub description: String,
    pub policy_type: PolicyType,
    pub parameters: StringMap<String>,
    pub effective_date: u64,
    pub expiration_date: Option<u64>,
    /// Majority needed, in percent.
    pub required_majority: u64,
    /// Quorum needed, in percent.
    pub quorum_threshold: u64,
    /// Seconds that must pass between changes.
    pub cooldown_period: u64,
}

/// A change of a policy's parameters.
#[derive(Debug)]
pub struct PolicyChangeRecord {
    pub policy_id: String,
    pub old_values: StringMap<String>,
    pub new_values: StringMap<String>,
    pub changer: String,
    pub timestamp: u64,
    pub justification: String,
}

/// The policies and the history of their changes.
#[derive(Debug)]
pub struct GovernancePolicyEngine {
    pub policies: Vec<GovernancePolicy>,
    pub policy_history: Vec<PolicyChangeRecord>,
}

/// How risky a proposal is judged to be.
#[derive(Debug, Clone, Copy, PartialEq, Eq, Structural)]
pub enum RiskLevel {
    Low,
    Medium,
    High,
}

/// The outcome of checking a proposal against the policies.
#[derive(Debug)]
pub struct ProposalComplianceReport {
    pub compliant: bool,
    pub issues: Vec<String>,
    pub recommendations: Vec<String>,
    pub risk_level: RiskLevel,
}

/// Why a policy operation was refused.
#[derive(Debug, Clone, Copy, PartialEq, Eq, Structural)]
pub enum PolicyError {
    PolicyNotFound,
    InsufficientPermissions,
    InvalidParameters,
}

impl PolicyError {
    /// The error's message.
    pub fn to_string(&self) -> (r: String)
        ensures
            r@ == match self {
                PolicyError::PolicyNotFound => "Policy not found"@,
                PolicyError::InsufficientPermissions => "Insufficient permissions"@,
                PolicyError::InvalidParameters => "Invalid parameters"@,
            },
    {
        match self {
            PolicyError::PolicyNotFound => String::from_str("Policy not found"),
            PolicyError::InsufficientPermissions => String::from_str("Insufficient permissions"),
            PolicyError::InvalidParameters => String::from_str("Invalid parameters"),
        }
    }
}

// ---------------------------------------------------------------------------
// The model.
// ---------------------------------------------------------------------------

/// The issue that a proposal's type raises, with the risk it carries: an
/// amendment needs 75% approval; the emergency brake needs at least three
/// validators; any other proposal needs 50% approval, and under 25% it is a
/// high risk.
pub open spec fn type_issue(p: GovProposalView, n_validators: nat) -> Option<(Seq<char>, RiskLevel)> {
    match p.proposal_type {
        GovTypeView::ConstitutionalAmendment(_) => if p.approval_percentage < 75 {
            Some(("Constitutional amendment requires 75% approval"@, RiskLevel::High))
        } else {
            None
        },
        GovTypeView::EmergencyBrake(_) => if n_validators < 3 {
            Some(("Insufficient validators for emergency procedures"@, RiskLevel::High))
        } else {
            None
        },
        _ => if p.approval_percentage < 50 {
            Some((
                "Proposal has low approval percentage"@,
                if p.approval_percentage < 25 { RiskLevel::High } else { RiskLevel::Medium },
            ))
        } else {
            None
        },
    }
}

/// Every issue a proposal raises, in the order they are checked: its type,
/// then the proposer's stake, then the quorum.
pub open spec fn compliance_issues(p: GovProposalView, n_validators: nat) -> Seq<Seq<char>> {
    let a = match type_issue(p, n_validators) {
        Some(x) => seq![x.0],
        None => Seq::empty(),
    };
    let b = if p.proposer_stake < p.minimum_stake_threshold { a.push("Insufficient proposer stake"@) } else { a };
    if !p.quorum_met { b.push("Quorum not met"@) } else { b }
}

/// The risk a proposal carries: that of its type's issue, else low.
pub open spec fn compliance_risk(p: GovProposalView, n_validators: nat) -> RiskLevel {
    match type_issue(p, n_validators) {
        Some(x) => x.1,
        None => RiskLevel::Low,
    }
}

/// The position of the first policy with this id, if any.
pub open spec fn policy_index(ps: Seq<GovernancePolicy>, id: Seq<char>) -> Option<int>
    decreases ps.len(),
{
    if ps.len() == 0 {
        None
    } else if ps[0].id@ == id {
        Some(0)
    } else {
        match policy_index(ps.drop_first(), id) {
            Some(i) => Some(i + 1),
            None => None,
        }
    }
}

/// `policy_index` finds the first policy with the id.
pub proof fn lemma_policy_index(ps: Seq<GovernancePolicy>, id: Seq<char>)
    ensures
        match policy_index(ps, id) {
            Some(i) => 0 <= i < ps.len() && ps[i].id@ == id
                && forall|j: int| 0 <= j < i ==> (#[trigger] ps[j]).id@ != id,
            None => forall|j: int| 0 <= j < ps.len() ==> (#[trigger] ps[j]).id@ != id,
        },
    decreases ps.len(),
{
    if ps.len() > 0 && ps[0].id@ != id {
        lemma_policy_index(ps.drop_first(), id);
        match policy_index(ps.drop_first(), id) {
            Some(i) => {
                assert forall|j: int| 0 <= j < i + 1 implies (#[trigger] ps[j]).id@ != id by {
                    if j > 0 {
                        assert(ps[j] == ps.drop_first()[j - 1]);
                    }
                }
            },
            None => {
                assert forall|j: int| 0 <= j < ps.len() implies (#[trigger] ps[j]).id@ != id by {
                    if j > 0 {
                        assert(ps[j] == ps.drop_first()[j - 1]);
                    }
                }
            },
        }
    }
}

/// The parameters of the default voting policy.
pub open spec fn default_voting_parameters() -> Map<Seq<char>, Seq<char>> {
    map![
        "quorum_percentage"@ => "20"@,
        "approval_threshold"@ => "67"@,
        "voting_period_seconds"@ => "604800"@,
    ]
}

/// A map of strings taken by its views.
pub open spec fn text_map(m: Map<Seq<char>, String>) -> Map<Seq<char>, Seq<char>> {
    m.map_values(|s: String| s@)
}

fn find_policy(ps: &Vec<GovernancePolicy>, id: &str) -> (r: Option<usize>)
    ensures
        match r {
            Some(i) => policy_index(ps@, id@) == Some(i as int) && i < ps@.len(),
            None => policy_index(ps@, id@) is None,
        },
{
    let mut i: usize = 0;
    assert(ps@.skip(0) =~= ps@);
    while i < ps.len()
        invariant
            i <= ps@.len(),
            policy_index(ps@, id@) == match policy_index(ps@.skip(i as int), id@) {
                Some(j) => Some(j + i),
                None => None::<int>,
            },
        decreases ps@.len() - i,
    {
        assert(ps@.skip(i as int).drop_first() =~= ps@.skip(i + 1));
        assert(ps@.skip(i as int)[0] == ps@[i as int]);
        if str_eq(ps[i].id.as_str(), id) {
            return Some(i);
        }
        i = i + 1;
    }
    None
}

/// Whether merging `new_params` into policy `policy_id` at time `now`, by
/// `changer` with `justification`, can turn `before_engine` into
/// `after_engine` with answer `r` (see `apply_policy_change_at`).
pub open spec fn policy_changed(
    before_engine: GovernancePolicyEngine,
    after_engine: GovernancePolicyEngine,
    policy_id: Seq<char>,
    new_params: Map<Seq<char>, String>,
    changer: String,
    justification: String,
    r: Result<(), PolicyError>,
    now: u64,
) -> bool {
    match policy_index(before_engine.policies@, policy_id) {
        None => {
            &&& r == Err::<(), PolicyError>(PolicyError::PolicyNotFound)
            &&& after_engine.policies@ == before_engine.policies@
            &&& after_engine.policy_history@ == before_engine.policy_history@
        },
        Some(i) => {
            let before = before_engine.policies@[i];
            let after = after_engine.policies@[i];
            let rec = after_engine.policy_history@.last();
            &&& r is Ok
            &&& after_engine.policies@.len() == before_engine.policies@.len()
            &&& forall|j: int| 0 <= j < before_engine.policies@.len() && j != i ==>
                #[trigger] after_engine.policies@[j] == before_engine.policies@[j]
            &&& after.parameters@ == before.parameters@.union_prefer_right(new_params)
            &&& after.id == before.id
            &&& after.name == before.name
            &&& after.description == before.description
            &&& after.policy_type == before.policy_type
            &&& after.effective_date == before.effective_date
            &&& after.expiration_date == before.expiration_date
            &&& after.required_majority == before.required_majority
            &&& after.quorum_threshold == before.quorum_threshold
            &&& after.cooldown_period == before.cooldown_period
            &&& after_engine.policy_history@.len() == before_engine.policy_history@.len() + 1
            &&& after_engine.policy_history@.drop_last() == before_engine.policy_history@
            &&& rec.policy_id@ == policy_id
            &&& rec.old_values@ == before.parameters@
            &&& rec.new_values@ == after.parameters@
            &&& rec.changer == changer
            &&& rec.timestamp == now
            &&& rec.justification == justification
        },
    }
}

impl GovernancePolicyEngine {
    /// An engine with one policy, "default_voting" (voting rules: a 20%
    /// quorum, 67% approval, a seven-day voting period, a 24-hour cooldown),
    /// effective from `now`, and no history.
    pub fn new_at(now: u64) -> (e: Self)
        ensures
            e.policies@.len() == 1,
            e.policies@[0].id@ == "default_voting"@,
            e.policies@[0].name@ == "Default Voting Rules"@,
            e.policies@[0].description@ == "Standard voting procedures"@,
            e.policies@[0].policy_type == PolicyType::VotingRules,
            text_map(e.policies@[0].parameters@) == default_voting_parameters(),
            e.policies@[0].effective_date == now,
            e.policies@[0].expiration_date == None::<u64>,
            e.policies@[0].required_majority == 67,
            e.policies@[0].quorum_threshold == 20,
            e.policies@[0].cooldown_period == 86400,
            e.policy_history@.len() == 0,
    {
        let mut params: StringMap<String> = StringMap::new();
        params.insert(String::from_str("quorum_percentage"), String::from_str("20"));
        params.insert(String::from_str("approval_threshold"), String::from_str("67"));
        params.insert(String::from_str("voting_period_seconds"), String::from_str("604800"));
        assert(text_map(params@) =~= default_voting_parameters());
        let policy = GovernancePolicy {
            id: String::from_str("default_voting"),
            name: String::from_str("Default Voting Rules"),
            description: String::from_str("Standard voting procedures"),
            policy_type: PolicyType::VotingRules,
            parameters: params,
            effective_date: now,
            expiration_date: None,
            required_majority: 67,
            quorum_threshold: 20,
            cooldown_period: 24 * 3600,
        };
        let mut policies: Vec<GovernancePolicy> = Vec::new();
        policies.push(policy);
        GovernancePolicyEngine { policies, policy_history: Vec::new() }
    }

    /// An engine with the default voting policy effective from now (see
    /// `new_at`).
    pub fn new() -> (e: Self)
        ensures
            e.policies@.len() == 1,
            e.policies@[0].id@ == "default_voting"@,
            e.policies@[0].policy_type == PolicyType::VotingRules,
            text_map(e.policies@[0].parameters@) == default_voting_parameters(),
            e.policies@[0].required_majority == 67,
            e.policies@[0].quorum_threshold == 20,
            e.policies@[0].cooldown_period == 86400,
            e.policy_history@.len() == 0,
    {
        let t = now_secs();
        Self::new_at(t)
    }

    /// Checks `proposal` against the policies, given the current
    /// `validators`: the report lists every issue (see `compliance_issues`),
    /// is compliant exactly when there is none, carries the risk of the
    /// proposal's type (see `compliance_risk`) and makes no recommendations.
    pub fn evaluate_proposal_compliance(&self, proposal: &GovernanceProposal, validators: &[Validator]) -> (r: ProposalComplianceReport)
        ensures
            r.issues@.map_values(|s: String| s@) == compliance_issues(proposal@, validators@.len()),
            r.compliant == (compliance_issues(proposal@, validators@.len()).len() == 0),
            r.risk_level == compliance_risk(proposal@, validators@.len()),
            r.recommendations@.len() == 0,
    {
        let mut report = ProposalComplianceReport {
            compliant: true,
            issues: Vec::new(),
            recommendations: Vec::new(),
            risk_level: RiskLevel::Low,
        };
        match &proposal.proposal_type {
            GovernanceProposalType::ConstitutionalAmendment(_) => {
                if proposal.approval_percentage < 75 {
                    report.compliant = false;
                    report.issues.push(String::from_str("Constitutional amendment requires 75% approval"));
                    report.risk_level = RiskLevel::High;
                }
            },
            GovernanceProposalType::EmergencyBrake(_) => {
                if validators.len() < 3 {
                    report.compliant = false;
                    report.issues.push(String::from_str("Insufficient validators for emergency procedures"));
                    report.risk_level = RiskLevel::High;
                }
            },
            _ => {
                if proposal.approval_percentage < 50 {
                    report.compliant = false;
                    report.issues.push(String::from_str("Proposal has low approval percentage"));
                    if proposal.approval_percentage < 25 {
                        report.risk_level = RiskLevel::High;
                    } else {
                        report.risk_level = RiskLevel::Medium;
                    }
                }
            },
        }
        let ghost a = report.issues@;
        if proposal.proposer_stake < proposal.minimum_stake_threshold {
            report.compliant = false;
            report.issues.push(String::from_str("Insufficient proposer stake"));
        }
        let ghost b = report.issues@;
        if !proposal.quorum_met {
            report.compliant = false;
            report.issues.push(String::from_str("Quorum not met"));
        }
        proof {
            let p = proposal@;
            let n = validators@.len();
            let ea = match type_issue(p, n) {
                Some(x) => seq![x.0],
                None => Seq::<Seq<char>>::empty(),
            };
            assert(a.map_values(|s: String| s@) =~= ea);
            let eb = if p.proposer_stake < p.minimum_stake_threshold { ea.push("Insufficient proposer stake"@) } else { ea };
            assert(b.map_values(|s: String| s@) =~= eb);
            assert(report.issues@.map_values(|s: String| s@) =~= compliance_issues(p, n));
        }
        report
    }

    /// Merges `new_params` into the parameters of the first policy with id
    /// `policy_id` (a new value replaces an old one) and records the change,
    /// with the parameters before and after, `changer`, time `now` and
    /// `justification`. An unknown policy is refused and nothing changes.
    pub fn apply_policy_change_at(
        &mut self,
        policy_id: &str,
        new_params: StringMap<String>,
        changer: String,
        justification: String,
        now: u64,
    ) -> (r: Result<(), PolicyError>)
        ensures
            policy_changed(*old(self), *final(self), policy_id@, new_params@, changer, justification, r, now),
    {
        let idx = find_policy(&self.policies, policy_id);
        let i = match idx {
            None => {
                return Err(PolicyError::PolicyNotFound);
            },
            Some(i) => i,
        };
        let ghost old_policies = self.policies@;
        let mut policy = self.policies.remove(i);
        let old_values = policy.parameters.clone();
        let mut params: StringMap<String> = StringMap::new();
        std::mem::swap(&mut params, &mut policy.parameters);
        let ghost base = params@;
        let mut k: usize = 0;
        let n = new_params.len();
        while k < n
            invariant
                k <= n,
                n == new_params.keys().len(),
                new_params.keys().no_duplicates(),
                new_params.keys().len() == new_params.values().len(),
                forall|key: Seq<char>| #[trigger] new_params@.contains_key(key) <==> new_params.keys().contains(key),
                forall|j: int| 0 <= j < new_params.keys().len() ==> new_params@[#[trigger] new_params.keys()[j]] == new_params.values()[j],
                params@ == base.union_prefer_right(
                    new_params@.restrict(new_params.keys().take(k as int).to_set()),
                ),
            decreases n - k,
        {
            let (key, value) = new_params.entry_at(k);
            params.insert(key.clone(), value.clone());
            assert(new_params.keys().take(k + 1).to_set() =~= new_params.keys().take(k as int).to_set().insert(key@)) by {
                assert(new_params.keys().take(k + 1) =~= new_params.keys().take(k as int).push(key@));
                new_params.keys().take(k as int).lemma_push_to_set_commute(key@);
            }
            assert(params@ =~= base.union_prefer_right(
                new_params@.restrict(new_params.keys().take(k + 1).to_set()),
            )) by {
                assert(new_params@.contains_key(key@));
            }
            k = k + 1;
        }
        assert(new_params.keys().take(n as int) =~= new_params.keys());
        assert(new_params@.restrict(new_params.keys().to_set()) =~= new_params@) by {
            assert forall|key: Seq<char>| new_params@.contains_key(key) implies new_params.keys().to_set().contains(key) by {
                assert(new_params.keys().contains(key));
            }
        }
        policy.parameters = params;
        let record = PolicyChangeRecord {
            policy_id: String::from_str(policy_id),
            old_values,
            new_values: policy.parameters.clone(),
            changer,
            timestamp: now,
            justification,
        };
        self.policy_history.push(record);
        self.policies.insert(i, policy);
        proof {
            assert forall|j: int| 0 <= j < old_policies.len() && j != i implies
                #[trigger] self.policies@[j] == old_policies[j] by {
                if j < i {
                    assert(self.policies@[j] == old_policies[j]);
                } else {
                    assert(self.policies@[j] == old_policies[j]);
                }
            }
            assert(self.policy_history@.drop_last() =~= old(self).policy_history@);
        }
        Ok(())
    }

    /// Applies a policy change at the current time (see
    /// `apply_policy_change_at`).
    pub fn apply_policy_change(
        &mut self,
        policy_id: &str,
        new_params: StringMap<String>,
        changer: String,
        justification: String,
    ) -> (r: Result<(), PolicyError>)
        ensures
            exists|t: u64| #[trigger] policy_changed(*old(self), *final(self), policy_id@, new_params@, changer, justification, r, t),
    {
        let t = now_secs();
        let ghost np = new_params@;
        let ghost ch = changer;
        let ghost ju = justification;
        let r = self.apply_policy_change_at(policy_id, new_params, changer, justification, t);
        assert(policy_changed(*old(self), *self, policy_id@, np, ch, ju, r, t));
        r
    }

    /// The first policy with id `policy_id`, if any.
    pub fn get_policy(&self, policy_id: &str) -> (r: Option<&GovernancePolicy>)
        ensures
            match policy_index(self.policies@, policy_id@) {
                Some(i) => r matches Some(p) && *p == self.policies@[i],
                None => r is None,
            },
    {
        match find_policy(&self.policies, policy_id) {
            Some(i) => Some(&self.policies[i]),
            None => None,
        }
    }

    /// All policies, in order.
    pub fn get_all_policies(&self) -> (r: &[GovernancePolicy])
        ensures
            r@ == self.policies@,
    {
        self.policies.as_slice()
    }
}

impl Default for GovernancePolicyEngine {
    fn default() -> (e: Self)
        ensures
            e.policies@.len() == 1,
            e.policies@[0].id@ == "default_voting"@,
            e.policies@[0].policy_type == PolicyType::VotingRules,
            text_map(e.policies@[0].parameters@) == default_voting_parameters(),
            e.policy_history@.len() == 0,
    {
        Self::new()
    }
}

} // verus!
