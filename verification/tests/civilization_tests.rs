use civitasos::civilization::{
    default_constitution_version, default_governance_limits, default_principles, positions_without,
    standard_amendment_procedure, validate_proposal, voting_ended, voting_schedule, AmendmentStep, ChangeType,
    ProposalStatus, VoteCounts, VoteType,
};
use civitasos::monitoring::metrics::MetricType;

#[test]
fn civilization_defaults() {
    assert_eq!(default_constitution_version(), "1.0.0");
    assert_eq!(default_principles(), vec!["Decentralization", "Transparency", "Fairness", "Sustainability"]);
    assert_eq!(default_governance_limits(), (1000, 10, 86_400));
    let p = standard_amendment_procedure();
    assert_eq!(p.name, "Standard Amendment");
    assert_eq!(
        p.steps,
        vec![AmendmentStep::Proposal, AmendmentStep::Discussion, AmendmentStep::Voting, AmendmentStep::Ratification]
    );
    assert_eq!(p.required_majority(ChangeType::Minor), Some(51));
    assert_eq!(p.required_majority(ChangeType::Major), Some(67));
    assert_eq!(p.required_majority(ChangeType::Fundamental), Some(75));
}

#[test]
fn civilization_proposal_validation_and_schedule() {
    assert_eq!(validate_proposal("", "t"), Err("Proposal must have an author".to_string()));
    assert_eq!(validate_proposal("", ""), Err("Proposal must have an author".to_string()));
    assert_eq!(validate_proposal("alice", ""), Err("Proposal must have a title".to_string()));
    assert_eq!(validate_proposal("alice", "More parks"), Ok(()));
    assert_eq!(voting_schedule(1_000), (1_000 + 86_400, 1_000 + 7 * 86_400));
    assert!(voting_ended(10, 10));
    assert!(!voting_ended(11, 10));
}

#[test]
fn civilization_vote_counting() {
    let mut c = VoteCounts::new();
    assert_eq!(
        c.cast(ProposalStatus::Submitted, VoteType::Yes, 5),
        Err("Proposal is not in voting phase".to_string())
    );
    assert_eq!(c, VoteCounts::new());
    assert!(!c.passes());
    c.cast(ProposalStatus::Voting, VoteType::Yes, 50).unwrap();
    c.cast(ProposalStatus::Voting, VoteType::No, 30).unwrap();
    c.cast(ProposalStatus::Voting, VoteType::Abstain, 20).unwrap();
    assert_eq!(c, VoteCounts { yes: 50, no: 30, abstain: 20, total: 100 });
    // Exactly half is not a majority.
    assert!(!c.passes());
    c.cast(ProposalStatus::Voting, VoteType::Yes, 1).unwrap();
    assert!(c.passes());
}

#[test]
fn civilization_value_function_positions() {
    let names: Vec<String> = ["Cooperation", "Efficiency", "Security", "Efficiency"].iter().map(|s| s.to_string()).collect();
    assert_eq!(positions_without(&names, "Efficiency"), vec![0, 2]);
    assert_eq!(positions_without(&names, "Innovation"), vec![0, 1, 2, 3]);
}

#[test]
fn metric_type_names() {
    assert_eq!(MetricType::Counter.prometheus_name(), "counter");
    assert_eq!(MetricType::Gauge.prometheus_name(), "gauge");
    assert_eq!(MetricType::Histogram.prometheus_name(), "histogram");
    assert_eq!(MetricType::Summary.prometheus_name(), "summary");
}
