use civitasos::collections::StringMap;
use civitasos::monitoring::security::{
    create_security_event_from_audit, default_detection_rules, detect_threats, matches_detection_rule,
    retain_recent, CorrelationEngine, SecurityEvent, SecurityEventLog, SecurityEventStatus, SecurityEventType,
    ThreatStatistics,
};
use civitasos::{AuditEntry, AuditEventType, AuditSeverity};

fn audit(timestamp: u64, event_type: AuditEventType, severity: AuditSeverity, actor: &str) -> AuditEntry {
    AuditEntry {
        timestamp,
        event_type,
        severity,
        actor: actor.to_string(),
        details: format!("detail {}", timestamp),
        metadata: StringMap::new(),
    }
}

fn event(id: &str, source: &str, event_type: SecurityEventType, severity: AuditSeverity, status: SecurityEventStatus) -> SecurityEvent {
    SecurityEvent {
        id: id.to_string(),
        event_type,
        severity,
        source: source.to_string(),
        target: "system".to_string(),
        details: String::new(),
        timestamp: 1000,
        related_events: vec![],
        status,
    }
}

#[test]
fn test_security_analyzer_creation() {
    let rules = default_detection_rules();
    assert_eq!(rules.len(), 3);
    assert_eq!(rules[0].name, "consensus_anomaly_detector");
    assert_eq!(rules[1].name, "governance_spam_detector");
    assert_eq!(rules[2].name, "execution_resource_abuse");
    assert!(rules.iter().all(|r| r.enabled));
}

#[test]
fn test_threat_statistics() {
    let stats = ThreatStatistics::new();
    assert_eq!(stats.total_threats, 0);
    assert_eq!(stats.critical_events, 0);
}

#[test]
fn test_correlation_engine() {
    let engine = CorrelationEngine::new();
    assert_eq!(engine.correlation_rules.len(), 1);
    assert_eq!(engine.correlation_rules[0].name, "consensus_then_governance_attack");
    let sources = vec!["node1".to_string(), "node1".to_string()];
    let repeated = engine.repeated_actors(&sources);
    assert_eq!(repeated, vec![("node1".to_string(), vec![0, 1])]);
}

#[test]
fn security_grouping_by_actor() {
    let engine = CorrelationEngine::default();
    let sources: Vec<String> = ["a", "b", "a", "c", "b", "a"].iter().map(|s| s.to_string()).collect();
    let groups = engine.group_by_actor(&sources);
    assert_eq!(
        groups,
        vec![
            ("a".to_string(), vec![0, 2, 5]),
            ("b".to_string(), vec![1, 4]),
            ("c".to_string(), vec![3]),
        ]
    );
    let repeated = engine.repeated_actors(&sources);
    assert_eq!(repeated, vec![("a".to_string(), vec![0, 2, 5]), ("b".to_string(), vec![1, 4])]);
    assert!(engine.repeated_actors(&vec![]).is_empty());
}

#[test]
fn security_detection_rules_match_by_event_kind() {
    let rules = default_detection_rules();
    let round = audit(10, AuditEventType::ConsensusRound, AuditSeverity::Warning, "node1");
    assert!(matches_detection_rule(&round, &rules[0]));
    assert!(!matches_detection_rule(&round, &rules[1]));
    let ev = create_security_event_from_audit(&round, &rules[0]);
    assert_eq!(ev.id, "sev_10_node1");
    assert_eq!(ev.event_type, SecurityEventType::ConsensusAnomaly);
    assert_eq!(ev.severity, AuditSeverity::Warning);
    assert_eq!(ev.source, "node1");
    assert_eq!(ev.target, "system");
    assert_eq!(ev.details, "Triggered by rule 'consensus_anomaly_detector': detail 10");
    assert_eq!(ev.status, SecurityEventStatus::New);
    assert!(ev.related_events.is_empty());
}

#[test]
fn security_detect_threats_in_order() {
    let mut rules = default_detection_rules();
    let audits = vec![
        audit(1, AuditEventType::ProposalCreated, AuditSeverity::Info, "gov"),
        audit(2, AuditEventType::VoteCast, AuditSeverity::Info, "voter"),
        audit(3, AuditEventType::ExecutionStarted, AuditSeverity::Error, "vm"),
    ];
    let events = detect_threats(&audits, &rules);
    let ids: Vec<&str> = events.iter().map(|e| e.id.as_str()).collect();
    assert_eq!(ids, vec!["sev_1_gov", "sev_3_vm"]);
    assert_eq!(events[0].event_type, SecurityEventType::GovernanceAbuse);
    assert_eq!(events[1].event_type, SecurityEventType::SmartContractViolation);
    rules[1].enabled = false;
    let events = detect_threats(&audits, &rules);
    assert_eq!(events.len(), 1);
    assert_eq!(events[0].id, "sev_3_vm");
}

#[test]
fn security_event_log_keeps_recent_and_updates() {
    let mut log = SecurityEventLog::new();
    log.record(vec![
        event("e1", "n1", SecurityEventType::ConsensusAnomaly, AuditSeverity::Critical, SecurityEventStatus::New),
        event("e2", "n2", SecurityEventType::GovernanceAbuse, AuditSeverity::Warning, SecurityEventStatus::Resolved),
        event("e3", "n1", SecurityEventType::NetworkAnomaly, AuditSeverity::Info, SecurityEventStatus::Investigating),
    ]);
    let recent: Vec<String> = log.recent(2).into_iter().map(|e| e.id).collect();
    assert_eq!(recent, vec!["e2".to_string(), "e3".to_string()]);
    assert_eq!(log.recent(10).len(), 3);
    let resolved: Vec<String> = log.with_status(SecurityEventStatus::Resolved).into_iter().map(|e| e.id).collect();
    assert_eq!(resolved, vec!["e2".to_string()]);

    assert!(log.update_status("e1", SecurityEventStatus::Closed));
    assert_eq!(log.events[0].status, SecurityEventStatus::Closed);
    assert!(!log.update_status("missing", SecurityEventStatus::Closed));

    let stats = log.statistics(7);
    assert_eq!(stats.total_threats, 7);
    assert_eq!(stats.critical_events, 1);
    assert_eq!(stats.warning_events, 1);
    assert_eq!(stats.info_events, 1);
    assert_eq!(stats.error_events, 0);
    assert_eq!(stats.consensus_anomalies, 1);
    assert_eq!(stats.governance_abuses, 1);
    assert_eq!(stats.resource_abuses, 0);
    assert_eq!(stats.other_events, 1);
    assert_eq!(stats.active_events, 1);
    assert_eq!(stats.resolved_events, 0);
}

#[test]
fn security_log_is_bounded() {
    let mut log = SecurityEventLog::new();
    let batch: Vec<SecurityEvent> = (0..1005)
        .map(|i| event(&format!("e{}", i), "n", SecurityEventType::ResourceAbuse, AuditSeverity::Info, SecurityEventStatus::New))
        .collect();
    log.record(batch);
    assert_eq!(log.events.len(), 1000);
    assert_eq!(log.events[0].id, "e5");
    assert_eq!(log.events[999].id, "e1004");

    let mut v = vec![1, 2, 3, 4, 5];
    retain_recent(&mut v, 2);
    assert_eq!(v, vec![4, 5]);
    let mut w = vec![1, 2];
    retain_recent(&mut w, 5);
    assert_eq!(w, vec![1, 2]);
}
