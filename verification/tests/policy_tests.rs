use civitasos::consensus::Validator;
use civitasos::governance::{GovernanceProposal, GovernanceProposalType};
use civitasos::governance_policy::{GovernancePolicyEngine, PolicyError, PolicyType, RiskLevel};
use civitasos::StringMap;
use std::time::{SystemTime, UNIX_EPOCH};

fn now() -> u64 {
    SystemTime::now().duration_since(UNIX_EPOCH).unwrap().as_secs()
}

fn test_proposal(proposal_type: GovernanceProposalType, approval_percentage: u64) -> GovernanceProposal {
    GovernanceProposal {
        id: "test_prop".to_string(),
        title: "Test Proposal".to_string(),
        description: "A test proposal".to_string(),
        proposal_type,
        proposer: "validator1".to_string(),
        created_at: now(),
        voting_deadline: now() + 1000,
        executed: false,
        passed: false,
        votes_for: 1000,
        votes_against: 500,
        total_stake_voted: 1500,
        minimum_stake_threshold: 1000,
        quorum_met: true,
        approval_percentage,
        proposer_stake: 2000,
    }
}

#[test]
fn test_policy_engine() {
    let policy_engine = GovernancePolicyEngine::new();
    assert!(!policy_engine.policies.is_empty());

    let voting_policy = policy_engine.get_policy("default_voting").unwrap();
    assert_eq!(voting_policy.policy_type, PolicyType::VotingRules);

    let proposal = test_proposal(GovernanceProposalType::ParameterChange("test".to_string()), 67);
    let validators = vec![Validator {
        id: "validator1".to_string(),
        public_key: "pubkey1".to_string(),
        stake: 1000,
        reputation: 100,
    }];

    let compliance_report = policy_engine.evaluate_proposal_compliance(&proposal, &validators);
    assert!(compliance_report.compliant);
    assert_eq!(compliance_report.risk_level, RiskLevel::Low);
}

#[test]
fn test_policy_change() {
    let mut policy_engine = GovernancePolicyEngine::new();
    let mut new_params = StringMap::new();
    new_params.insert("quorum_percentage".to_string(), "25".to_string());

    let result = policy_engine.apply_policy_change(
        "default_voting",
        new_params,
        "changer1".to_string(),
        "Testing policy change".to_string(),
    );
    assert!(result.is_ok());

    let updated_policy = policy_engine.get_policy("default_voting").unwrap();
    assert_eq!(updated_policy.parameters.get("quorum_percentage").unwrap(), "25");

    assert!(!policy_engine.policy_history.is_empty());
    let record = &policy_engine.policy_history[0];
    assert_eq!(record.policy_id, "default_voting");
    assert_eq!(record.changer, "changer1");
}

#[test]
fn policy_issues_are_listed_in_order() {
    let engine = GovernancePolicyEngine::new_at(7);
    let mut p = test_proposal(GovernanceProposalType::ParameterChange("x".to_string()), 20);
    p.proposer_stake = 10;
    p.quorum_met = false;
    let report = engine.evaluate_proposal_compliance(&p, &[]);
    assert!(!report.compliant);
    assert_eq!(report.risk_level, RiskLevel::High);
    assert_eq!(
        report.issues,
        vec![
            "Proposal has low approval percentage".to_string(),
            "Insufficient proposer stake".to_string(),
            "Quorum not met".to_string()
        ]
    );
    let p = test_proposal(GovernanceProposalType::ParameterChange("x".to_string()), 30);
    assert_eq!(engine.evaluate_proposal_compliance(&p, &[]).risk_level, RiskLevel::Medium);
    let p = test_proposal(GovernanceProposalType::ConstitutionalAmendment("x".to_string()), 74);
    let r = engine.evaluate_proposal_compliance(&p, &[]);
    assert_eq!(r.issues, vec!["Constitutional amendment requires 75% approval".to_string()]);
    let p = test_proposal(GovernanceProposalType::EmergencyBrake(true), 100);
    let r = engine.evaluate_proposal_compliance(&p, &[]);
    assert_eq!(r.issues, vec!["Insufficient validators for emergency procedures".to_string()]);
    assert!(r.recommendations.is_empty());
}

#[test]
fn policy_change_keeps_other_parameters_and_records_old_values() {
    let mut engine = GovernancePolicyEngine::new_at(7);
    assert_eq!(engine.policies[0].effective_date, 7);
    let mut params = StringMap::new();
    params.insert("approval_threshold".to_string(), "75".to_string());
    params.insert("new_key".to_string(), "v".to_string());
    engine.apply_policy_change_at("default_voting", params, "c".to_string(), "j".to_string(), 99).unwrap();
    let p = engine.get_policy("default_voting").unwrap();
    assert_eq!(p.parameters.get("quorum_percentage").unwrap(), "20");
    assert_eq!(p.parameters.get("approval_threshold").unwrap(), "75");
    assert_eq!(p.parameters.get("new_key").unwrap(), "v");
    let rec = &engine.policy_history[0];
    assert_eq!(rec.old_values.get("approval_threshold").unwrap(), "67");
    assert_eq!(rec.timestamp, 99);
    let missing = engine.apply_policy_change_at("nope", StringMap::new(), "c".to_string(), "j".to_string(), 1);
    assert_eq!(missing, Err(PolicyError::PolicyNotFound));
    assert_eq!(PolicyError::PolicyNotFound.to_string(), "Policy not found");
    assert_eq!(engine.get_all_policies().len(), 1);
}
