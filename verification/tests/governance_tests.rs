use civitasos::consensus::{ConsensusEngine, Validator};
use civitasos::governance::{
    ConstitutionalRule, GovernanceEngine, GovernanceError, GovernanceProposal, GovernanceProposalType, ProposalOutcome,
};
use civitasos::governance_policy::GovernancePolicyEngine;
use civitasos::state::StateStore;
use civitasos::StringMap;
use std::time::{SystemTime, UNIX_EPOCH};

fn now() -> u64 {
    SystemTime::now().duration_since(UNIX_EPOCH).unwrap().as_secs()
}

fn validator(id: &str) -> Validator {
    Validator { id: id.to_string(), public_key: "pubkey1".to_string(), stake: 1000, reputation: 100 }
}

fn proposal(title: &str, description: &str, proposal_type: GovernanceProposalType) -> GovernanceProposal {
    GovernanceProposal {
        id: "".to_string(),
        title: title.to_string(),
        description: description.to_string(),
        proposal_type,
        proposer: "validator1".to_string(),
        created_at: now(),
        voting_deadline: 0,
        executed: false,
        passed: false,
        votes_for: 0,
        votes_against: 0,
        total_stake_voted: 0,
        minimum_stake_threshold: 1000,
        quorum_met: false,
        approval_percentage: 0,
        proposer_stake: 2000,
    }
}

#[test]
fn test_governance_engine() {
    let state_store = StateStore::new();
    let mut consensus_engine = ConsensusEngine::new(state_store);
    consensus_engine.add_validator(validator("validator1"));
    let mut gov_engine = GovernanceEngine::new(consensus_engine);

    let active_rules = gov_engine.get_active_constitutional_rules();
    assert!(!active_rules.is_empty());

    let p = proposal(
        "Test Proposal",
        "This is a test proposal",
        GovernanceProposalType::ParameterChange("test_param=test_value".to_string()),
    );
    let result = gov_engine.create_proposal(p, 2000);
    assert!(result.is_ok());

    let proposal_id = result.unwrap();
    assert!(!proposal_id.is_empty());

    let vote_result = gov_engine.vote(&proposal_id, "validator1".to_string(), true, 1500);
    assert!(vote_result.is_ok());
}

#[test]
fn test_constitutional_check() {
    let state_store = StateStore::new();
    let consensus_engine = ConsensusEngine::new(state_store);
    let gov_engine = GovernanceEngine::new(consensus_engine);
    assert!(gov_engine.is_action_constitutional("test_action"));
}

#[test]
fn test_advanced_governance_features() {
    let state_store = StateStore::new();
    let mut consensus_engine = ConsensusEngine::new(state_store.clone_for_validation());
    consensus_engine.add_validator(validator("validator1"));
    let mut governance_engine = GovernanceEngine::new(consensus_engine);
    let mut policy_engine = GovernancePolicyEngine::new();

    let p = proposal(
        "Parameter Adjustment Proposal",
        "Adjusting the quorum percentage from 20 to 25",
        GovernanceProposalType::ParameterChange("quorum_percentage=25".to_string()),
    );
    let proposal_id = governance_engine.create_proposal(p, 2000).unwrap();

    let retrieved_proposal = governance_engine.get_proposal(&proposal_id).unwrap();
    assert_eq!(retrieved_proposal.title, "Parameter Adjustment Proposal");

    let active_proposals = governance_engine.get_active_proposals();
    assert!(!active_proposals.is_empty());

    for prop in &mut governance_engine.proposals {
        if prop.id == proposal_id {
            prop.voting_deadline = now() - 100;
            prop.votes_for = 1500;
            prop.votes_against = 300;
            prop.total_stake_voted = 1800;
            prop.quorum_met = true;
            prop.approval_percentage = (prop.votes_for * 100) / (prop.votes_for + prop.votes_against);
            break;
        }
    }

    let outcome = governance_engine.compute_proposal_result(&proposal_id).unwrap();
    println!("Proposal outcome: {:?}", outcome);

    if outcome == ProposalOutcome::Passed {
        let executed = governance_engine.execute_passed_proposals().unwrap();
        if !executed.is_empty() {
            println!("Executed proposal: {}", executed[0]);
        }
    }

    let validators: Vec<Validator> = governance_engine.consensus_engine.validators.clone();
    let compliance_report = policy_engine
        .evaluate_proposal_compliance(governance_engine.get_proposal(&proposal_id).unwrap(), &validators);
    println!(
        "Compliance report - Compliant: {}, Risk Level: {:?}",
        compliance_report.compliant, compliance_report.risk_level
    );

    let mut new_params = StringMap::new();
    new_params.insert("quorum_percentage".to_string(), "30".to_string());
    let policy_change_result = policy_engine.apply_policy_change(
        "default_voting",
        new_params,
        "validator1".to_string(),
        "Adjusting quorum for increased security".to_string(),
    );
    assert!(policy_change_result.is_ok());

    let updated_policy = policy_engine.get_policy("default_voting").unwrap();
    assert_eq!(updated_policy.parameters.get("quorum_percentage").unwrap(), "30");

    let executed_proposals = governance_engine.get_executed_proposals();
    println!("Found {} executed proposals", executed_proposals.len());
    let passed_proposals = governance_engine.get_passed_proposals();
    println!("Found {} passed proposals", passed_proposals.len());
}

#[test]
fn test_constitutional_rule_management() {
    let state_store = StateStore::new();
    let consensus_engine = ConsensusEngine::new(state_store);
    let mut governance_engine = GovernanceEngine::new(consensus_engine);

    let initial_rules_count = governance_engine.get_active_constitutional_rules().len();
    assert!(initial_rules_count > 0);

    let new_rule = ConstitutionalRule {
        id: "rule_dynamic_1".to_string(),
        name: "Dynamic Rule 1".to_string(),
        description: "A dynamically added constitutional rule".to_string(),
        content: "F(State) -> ValidState where constraint is satisfied".to_string(),
        version: 1,
        created_at: now(),
        updated_at: now(),
        active: true,
    };

    let add_result = governance_engine.add_constitutional_rule(new_rule);
    assert!(add_result.is_ok());

    let updated_rules_count = governance_engine.get_active_constitutional_rules().len();
    assert!(updated_rules_count > initial_rules_count);

    assert!(governance_engine.is_action_constitutional("test_action"));
}

fn engine_with_validator() -> GovernanceEngine {
    let mut consensus_engine = ConsensusEngine::new(StateStore::new());
    consensus_engine.add_validator(validator("validator1"));
    GovernanceEngine::new_at(consensus_engine, 1000)
}

#[test]
fn governance_proposal_ids_count_from_one() {
    let mut g = engine_with_validator();
    let p = proposal("a", "b", GovernanceProposalType::BudgetAllocation("x".to_string()));
    assert_eq!(g.create_proposal_at(p, 1000, 50).unwrap(), "gov_proposal_1");
    let p = proposal("a", "b", GovernanceProposalType::BudgetAllocation("x".to_string()));
    assert_eq!(g.create_proposal_at(p, 1000, 60).unwrap(), "gov_proposal_2");
    assert_eq!(g.proposals[0].voting_deadline, 50 + 604800);
    assert_eq!(g.proposals[1].created_at, 60);
}

#[test]
fn governance_refusals() {
    let mut g = engine_with_validator();
    let p = proposal("a", "b", GovernanceProposalType::PolicyChange("x".to_string()));
    assert_eq!(g.create_proposal_at(p, 999, 1), Err(GovernanceError::InsufficientStake));
    let mut p = proposal("a", "b", GovernanceProposalType::PolicyChange("x".to_string()));
    p.proposer = "stranger".to_string();
    assert_eq!(g.create_proposal_at(p, 5000, 1), Err(GovernanceError::InvalidProposal));
    let p = proposal("a", "b", GovernanceProposalType::EmergencyBrake(true));
    assert_eq!(g.create_proposal_at(p, 5000, 1), Err(GovernanceError::InvalidProposal));
    let p = proposal("a", "b", GovernanceProposalType::EmergencyBrake(false));
    assert!(g.create_proposal_at(p, 5000, 1).is_ok());
    assert_eq!(g.vote_at("missing", "v".to_string(), true, 1, 1), Err(GovernanceError::ProposalNotFound));
    assert_eq!(g.vote_at("gov_proposal_1", "v".to_string(), true, 1, 604802), Err(GovernanceError::VotingPeriodEnded));
    assert_eq!(g.compute_proposal_result_at("gov_proposal_1", 10), Err(GovernanceError::VotingPeriodNotEnded));
    assert_eq!(g.compute_proposal_result_at("missing", 10), Err(GovernanceError::ProposalNotFound));
    assert_eq!(GovernanceError::InsufficientStake.to_string(), "Insufficient stake for proposal");
}

#[test]
fn governance_tally_and_execution_change_parameters() {
    let mut g = engine_with_validator();
    let p = proposal("q", "d", GovernanceProposalType::ParameterChange("quorum_percentage = 35".to_string()));
    let id = g.create_proposal_at(p, 1000, 0).unwrap();
    g.vote_at(&id, "alice".to_string(), true, 3000, 10).unwrap();
    g.vote_at(&id, "bob".to_string(), false, 500, 10).unwrap();
    g.vote_at(&id, "alice".to_string(), true, 100, 10).unwrap();
    assert_eq!(*g.voting_power.get("alice").unwrap(), 3100);
    assert_eq!(g.compute_proposal_result_at(&id, 604801), Ok(ProposalOutcome::Passed));
    assert_eq!(g.proposals[0].approval_percentage, 86);
    assert!(g.proposals[0].quorum_met);
    let done = g.execute_passed_proposals_at(604801).unwrap();
    assert_eq!(done, vec![id.clone()]);
    assert_eq!(g.quorum_percentage, 35);
    assert!(g.proposals[0].executed);
    assert_eq!(g.execute_passed_proposals_at(604802).unwrap().len(), 0);
}

#[test]
fn governance_amendment_adds_rule_and_validator_commands() {
    let mut g = engine_with_validator();
    let p = proposal("c", "d", GovernanceProposalType::ConstitutionalAmendment("be kind".to_string()));
    let id = g.create_proposal_at(p, 1000, 0).unwrap();
    let p2 = proposal("v", "d", GovernanceProposalType::ValidatorManagement("add:val9:key9:77".to_string()));
    let id2 = g.create_proposal_at(p2, 1000, 0).unwrap();
    g.vote_at(&id, "alice".to_string(), true, 5000, 1).unwrap();
    g.vote_at(&id2, "alice".to_string(), true, 5000, 1).unwrap();
    g.compute_proposal_result_at(&id, 604801).unwrap();
    g.compute_proposal_result_at(&id2, 604801).unwrap();
    let done = g.execute_passed_proposals_at(604801).unwrap();
    assert_eq!(done.len(), 2);
    assert_eq!(g.constitution.len(), 2);
    assert_eq!(g.constitution[1].id, "rule_gov_proposal_1_1");
    assert_eq!(g.constitution[1].name, "Updated Rule from Prop gov_proposal_1");
    assert_eq!(g.constitution[1].content, "be kind");
    assert_eq!(g.consensus_engine.validators.len(), 2);
    assert_eq!(g.consensus_engine.validators[1].id, "val9");
    assert_eq!(g.consensus_engine.validators[1].stake, 77);
    assert_eq!(g.consensus_engine.validators[1].reputation, 100);

    let p3 = proposal("r", "d", GovernanceProposalType::ValidatorManagement("remove:val9".to_string()));
    let id3 = g.create_proposal_at(p3, 1000, 0).unwrap();
    g.vote_at(&id3, "alice".to_string(), true, 5000, 1).unwrap();
    g.compute_proposal_result_at(&id3, 604801).unwrap();
    g.execute_passed_proposals_at(604801).unwrap();
    assert_eq!(g.consensus_engine.validators.len(), 1);
}

#[test]
fn governance_defeated_without_quorum() {
    let mut g = engine_with_validator();
    let p = proposal("q", "d", GovernanceProposalType::RiskAssessment("x".to_string()));
    let id = g.create_proposal_at(p, 1000, 0).unwrap();
    g.vote_at(&id, "alice".to_string(), true, 1800, 1).unwrap();
    assert_eq!(g.compute_proposal_result_at(&id, 604801), Ok(ProposalOutcome::Defeated));
    assert!(!g.proposals[0].quorum_met);
    assert_eq!(g.proposals[0].approval_percentage, 100);
}

#[test]
fn governance_execution_keeps_tallies_and_marks() {
    let mut g = engine_with_validator();
    let p = proposal("a", "d", GovernanceProposalType::ParameterChange("approval_threshold = 60".to_string()));
    let id = g.create_proposal_at(p, 1000, 0).unwrap();
    let p2 = proposal("b", "d", GovernanceProposalType::PolicyChange("x".to_string()));
    let id2 = g.create_proposal_at(p2, 1000, 0).unwrap();
    g.vote_at(&id, "alice".to_string(), true, 4000, 1).unwrap();
    g.vote_at(&id2, "bob".to_string(), true, 3000, 1).unwrap();
    g.vote_at(&id2, "carol".to_string(), false, 500, 1).unwrap();
    g.compute_proposal_result_at(&id, 604801).unwrap();
    let before: Vec<(String, u64, u64, u64, u64)> = g
        .proposals
        .iter()
        .map(|p| (p.id.clone(), p.voting_deadline, p.votes_for, p.votes_against, p.total_stake_voted))
        .collect();
    assert_eq!(g.execute_passed_proposals_at(604801).unwrap(), vec![id.clone()]);
    assert!(g.proposals[0].executed);
    g.compute_proposal_result_at(&id2, 604801).unwrap();
    assert_eq!(g.execute_passed_proposals_at(604801).unwrap(), vec![id2.clone()]);
    let after: Vec<(String, u64, u64, u64, u64)> = g
        .proposals
        .iter()
        .map(|p| (p.id.clone(), p.voting_deadline, p.votes_for, p.votes_against, p.total_stake_voted))
        .collect();
    assert_eq!(before, after);
    assert!(g.proposals[0].executed);
    assert!(g.proposals[1].executed);
}
