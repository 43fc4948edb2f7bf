use civitasos::consensus::ConsensusEngine;
use civitasos::execution::ExecutionEngine;
use civitasos::governance::GovernanceEngine;
use civitasos::monitoring::health::{
    ConsensusHealthCheck, ExecutionHealthCheck, GovernanceHealthCheck, HealthCheckResult, StateHealthCheck,
};
use civitasos::monitoring::{AuditEntry, AuditEventType, AuditSeverity, HealthReport, HealthStatus, SecurityAuditor};
use civitasos::state::StateStore;
use civitasos::StringMap;

#[test]
fn test_health_report_creation() {
    let report = HealthReport::new();
    assert!(report.timestamp > 0);
    assert_eq!(report.overall_status, HealthStatus::Unknown);
}

#[test]
fn test_state_health_check() {
    let store = StateStore::new();
    let check = StateHealthCheck::new(store);
    let result = check.check_at(5);
    assert_eq!(result.component, "state_store");
    assert_eq!(result.status, HealthStatus::Healthy);
}

#[test]
fn test_health_report_generation() {
    let report = HealthReport::from_results_at(&vec![], 3);
    assert!(report.timestamp > 0);
    assert_eq!(report.overall_status, HealthStatus::Unknown);
}

#[test]
fn monitoring_component_checks() {
    let e = ExecutionHealthCheck::new(ExecutionEngine::new(10)).check_at(4);
    assert_eq!(e.component, "execution_engine");
    assert_eq!(e.status, HealthStatus::Healthy);
    assert_eq!(e.message, "Execution engine operational");
    assert_eq!(e.timestamp, 4);
    let c = ConsensusHealthCheck::new(ConsensusEngine::new(StateStore::new())).check_at(4);
    assert_eq!(c.status, HealthStatus::Healthy);
    assert_eq!(c.message, "Consensus engine operational");
    let g = GovernanceHealthCheck::new(GovernanceEngine::new(ConsensusEngine::new(StateStore::new()))).check_at(4);
    assert_eq!(g.status, HealthStatus::Healthy);
    assert_eq!(g.message, "Governance engine operational, 1 active rules");
}

fn result(component: &str, status: HealthStatus, message: &str) -> HealthCheckResult {
    HealthCheckResult {
        component: component.to_string(),
        status,
        message: message.to_string(),
        timestamp: 1,
        response_time_ms: 0,
    }
}

#[test]
fn monitoring_report_summarises_results() {
    let results = vec![
        result("a", HealthStatus::Healthy, "fine"),
        result("b", HealthStatus::Warning, "slow"),
        result("c", HealthStatus::Critical, "down"),
        result("d", HealthStatus::Warning, "odd"),
    ];
    let report = HealthReport::from_results_at(&results, 9);
    assert_eq!(report.overall_status, HealthStatus::Critical);
    assert_eq!(report.error_count, 1);
    assert_eq!(report.warnings, vec!["b: slow".to_string(), "d: odd".to_string()]);
    assert_eq!(report.component_status.get("c"), Some(&HealthStatus::Critical));
    let healthy = HealthReport::from_results_at(&vec![result("a", HealthStatus::Healthy, "ok")], 9);
    assert_eq!(healthy.overall_status, HealthStatus::Healthy);
}

#[test]
fn monitoring_audit_trail_and_rules() {
    let mut auditor = SecurityAuditor::new(2);
    auditor.log_event_at(AuditEventType::ExecutionStarted, AuditSeverity::Info, "test_node".to_string(), "Execution started".to_string(), 10);
    let audits = auditor.get_recent_audits(10);
    assert_eq!(audits.len(), 1);
    assert_eq!(audits[0].actor, "test_node");
    auditor.log_event_at(AuditEventType::VoteCast, AuditSeverity::Warning, "n".to_string(), "v".to_string(), 20);
    auditor.log_event_at(AuditEventType::ErrorOccurred, AuditSeverity::Error, "n".to_string(), "e".to_string(), 30);
    let audits = auditor.get_recent_audits(10);
    assert_eq!(audits.len(), 2);
    assert_eq!(audits[0].timestamp, 20);
    assert_eq!(auditor.get_recent_audits(1)[0].timestamp, 30);
    assert_eq!(auditor.get_security_alerts_at(0, 25).len(), 1);
    assert_eq!(auditor.get_security_alerts_at(0, 10).len(), 2);

    let event = AuditEntry {
        timestamp: 0,
        event_type: AuditEventType::ExecutionStarted,
        severity: AuditSeverity::Info,
        actor: "x".to_string(),
        details: "gas used 100000 units".to_string(),
        metadata: StringMap::new(),
    };
    let fired = auditor.check_security_rules(&event);
    assert_eq!(fired.len(), 1);
    assert_eq!(fired[0].name, "execution_gas_limit");
    let proposal = AuditEntry { event_type: AuditEventType::ProposalCreated, ..event };
    let fired = auditor.check_security_rules(&proposal);
    assert_eq!(fired.len(), 1);
    assert_eq!(fired[0].name, "proposal_rate_limit");
}
