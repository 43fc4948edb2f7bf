//! Monitoring: health reports built from component checks, and a security
//! audit trail checked against rules. Measurements with fractional values
//! (processor load, averages of timings) are taken outside this module.
use vstd::prelude::*;

use crate::clock::now_secs;
use crate::collections::StringMap;
use crate::text::{chars_of, contains_chars, decimal, decimal_string, occurs_in};

pub mod health;
pub mod metrics;
pub mod performance;
pub mod security;

verus! {

/// The health of a component or of the system.
#[derive(Debug, Clone, Copy, PartialEq, Eq, Structural)]
pub enum HealthStatus {
    Healthy,
    Warning,
    Critical,
    Unknown,
}

/// The health of the system and of each component.
#[derive(Debug)]
pub struct HealthReport {
    pub timestamp: u64,
    pub overall_status: HealthStatus,
    pub component_status: StringMap<HealthStatus>,
    /// Seconds the system has been up.
    pub uptime: u64,
    pub error_count: u64,
    pub warnings: Vec<String>,
}

impl HealthReport {
    /// An empty report dated `now`: status unknown, no components, errors or
    /// warnings.
    pub fn new_at(now: u64) -> (r: Self)
        ensures
            r.timestamp == now,
            r.overall_status == HealthStatus::Unknown,
            r.component_status@ == Map::<Seq<char>, HealthStatus>::empty(),
            r.uptime == 0,
            r.error_count == 0,
            r.warnings@.len() == 0,
    {
        HealthReport {
            timestamp: now,
            overall_status: HealthStatus::Unknown,
            component_status: StringMap::new(),
            uptime: 0,
            error_count: 0,
            warnings: Vec::new(),
        }
    }

    /// An empty report dated now (see `new_at`).
    pub fn new() -> (r: Self)
        ensures
            r.overall_status == HealthStatus::Unknown,
            r.component_status@ == Map::<Seq<char>, HealthStatus>::empty(),
            r.uptime == 0,
            r.error_count == 0,
            r.warnings@.len() == 0,
    {
        let t = now_secs();
        Self::new_at(t)
    }
}

/// What happened, in an audit entry.
#[derive(Debug, Clone, Copy, PartialEq, Eq, Structural)]
pub enum AuditEventType {
    ExecutionStarted,
    ExecutionCompleted,
    StateTransition,
    ProposalCreated,
    VoteCast,
    ConsensusRound,
    NetworkConnection,
    SecurityViolation,
    ConfigurationChange,
    ErrorOccurred,
}

/// How serious an audited event is.
#[derive(Debug, Clone, Copy, PartialEq, Eq, Structural)]
pub enum AuditSeverity {
    Info,
    Warning,
    Error,
    Critical,
}

/// An entry of the audit trail.
#[derive(Debug)]
pub struct AuditEntry {
    pub timestamp: u64,
    pub event_type: AuditEventType,
    pub severity: AuditSeverity,
    /// The node or user that caused it.
    pub actor: String,
    pub details: String,
    pub metadata: StringMap<String>,
}

/// Whether two audit entries say the same.
pub open spec fn same_entry(a: AuditEntry, b: AuditEntry) -> bool {
    &&& a.timestamp == b.timestamp
    &&& a.event_type == b.event_type
    &&& a.severity == b.severity
    &&& a.actor == b.actor
    &&& a.details == b.details
    &&& a.metadata@ == b.metadata@
}

impl Clone for AuditEntry {
    fn clone(&self) -> (r: Self)
        ensures
            same_entry(r, *self),
    {
        AuditEntry {
            timestamp: self.timestamp,
            event_type: self.event_type,
            severity: self.severity,
            actor: self.actor.clone(),
            details: self.details.clone(),
            metadata: self.metadata.clone(),
        }
    }
}

/// What a security rule watches for.
#[derive(Debug)]
pub enum SecurityCondition {
    ExecutionThreshold { max_gas: u64 },
    StateAccessPattern { pattern: String },
    NetworkRateLimit { max_requests_per_minute: u64 },
    ConsensusAnomaly,
    GovernanceSpam { max_proposals_per_hour: u64 },
}

/// What is done when a security rule fires.
#[derive(Debug, Clone, Copy, PartialEq, Eq, Structural)]
pub enum SecurityAction {
    LogOnly,
    Alert,
    Throttle,
    Block,
    Quarantine,
}

/// A security rule.
#[derive(Debug)]
pub struct SecurityRule {
    pub name: String,
    pub description: String,
    pub condition: SecurityCondition,
    pub action: SecurityAction,
    pub enabled: bool,
}

/// Whether `rule` fires on `event`: it must be enabled; a gas threshold
/// fires on an execution start whose details mention the threshold in
/// decimal; a spam rule fires on every proposal created; the other
/// conditions never fire.
pub open spec fn rule_fires(rule: SecurityRule, event: AuditEntry) -> bool {
    rule.enabled && match rule.condition {
        SecurityCondition::ExecutionThreshold { max_gas } => event.event_type == AuditEventType::ExecutionStarted
            && occurs_in(event.details@, decimal(max_gas as nat)),
        SecurityCondition::GovernanceSpam { .. } => event.event_type == AuditEventType::ProposalCreated,
        _ => false,
    }
}

/// The rules of `rules` that fire on `event`, in order.
pub open spec fn firing_rules(rules: Seq<SecurityRule>, event: AuditEntry) -> Seq<SecurityRule>
    decreases rules.len(),
{
    if rules.len() == 0 {
        rules
    } else {
        let rest = firing_rules(rules.drop_last(), event);
        if rule_fires(rules.last(), event) {
            rest.push(rules.last())
        } else {
            rest
        }
    }
}

/// The trail after `e` is appended, keeping the newest `max` entries.
pub open spec fn trail_after(trail: Seq<AuditEntry>, e: AuditEntry, max: usize) -> Seq<AuditEntry> {
    let t = trail.push(e);
    if t.len() > max {
        t.skip(t.len() - max)
    } else {
        t
    }
}

/// Whether an entry is an alert at or after `cutoff`: a warning, an error or
/// a critical event.
pub open spec fn is_alert(e: AuditEntry, cutoff: int) -> bool {
    e.timestamp >= cutoff && e.severity != AuditSeverity::Info
}

/// The alerts of `trail` at or after `cutoff`, in order.
pub open spec fn alerts(trail: Seq<AuditEntry>, cutoff: int) -> Seq<AuditEntry>
    decreases trail.len(),
{
    if trail.len() == 0 {
        trail
    } else {
        let rest = alerts(trail.drop_last(), cutoff);
        if is_alert(trail.last(), cutoff) {
            rest.push(trail.last())
        } else {
            rest
        }
    }
}

/// Whether `r` is what asking at clock reading `t` for the alerts of the last
/// `hours` hours gives: the alerts since `t - hours * 3600`, or none when that
/// lies before the clock's epoch.
pub open spec fn alerts_as_of(r: Seq<AuditEntry>, trail: Seq<AuditEntry>, hours: u64, t: u64) -> bool {
    if hours * 3600 <= t {
        same_entries(r, alerts(trail, t - hours * 3600))
    } else {
        r.len() == 0
    }
}

/// Whether two lists of entries say the same, entry by entry.
pub open spec fn same_entries(a: Seq<AuditEntry>, b: Seq<AuditEntry>) -> bool {
    a.len() == b.len() && forall|i: int| 0 <= i < a.len() ==> #[trigger] same_entry(a[i], b[i])
}

/// Keeps an audit trail of bounded length and checks events against rules.
#[derive(Debug)]
pub struct SecurityAuditor {
    audit_trail: Vec<AuditEntry>,
    max_audit_entries: usize,
    security_rules: Vec<SecurityRule>,
}

impl SecurityAuditor {
    /// The audit trail, oldest first.
    pub closed spec fn trail(&self) -> Seq<AuditEntry> {
        self.audit_trail@
    }

    /// How many entries the trail keeps.
    pub closed spec fn max_entries(&self) -> usize {
        self.max_audit_entries
    }

    /// The security rules.
    pub closed spec fn rules(&self) -> Seq<SecurityRule> {
        self.security_rules@
    }

    /// An auditor keeping `max_audit_entries` entries, with an empty trail and
    /// two enabled rules: "execution_gas_limit" (alert when an execution
    /// start mentions 100000) and "proposal_rate_limit" (throttle proposals,
    /// 10 an hour).
    pub fn new(max_audit_entries: usize) -> (a: Self)
        ensures
            a.trail().len() == 0,
            a.max_entries() == max_audit_entries,
            a.rules().len() == 2,
            a.rules()[0].name@ == "execution_gas_limit"@,
            a.rules()[0].description@ == "Monitor execution gas usage"@,
            a.rules()[0].condition == (SecurityCondition::ExecutionThreshold { max_gas: 100000 }),
            a.rules()[0].action == SecurityAction::Alert,
            a.rules()[0].enabled,
            a.rules()[1].name@ == "proposal_rate_limit"@,
            a.rules()[1].description@ == "Prevent governance spam"@,
            a.rules()[1].condition == (SecurityCondition::GovernanceSpam { max_proposals_per_hour: 10 }),
            a.rules()[1].action == SecurityAction::Throttle,
            a.rules()[1].enabled,
    {
        let mut rules: Vec<SecurityRule> = Vec::new();
        rules.push(SecurityRule {
            name: String::from_str("execution_gas_limit"),
            description: String::from_str("Monitor execution gas usage"),
            condition: SecurityCondition::ExecutionThreshold { max_gas: 100000 },
            action: SecurityAction::Alert,
            enabled: true,
        });
        rules.push(SecurityRule {
            name: String::from_str("proposal_rate_limit"),
            description: String::from_str("Prevent governance spam"),
            condition: SecurityCondition::GovernanceSpam { max_proposals_per_hour: 10 },
            action: SecurityAction::Throttle,
            enabled: true,
        });
        SecurityAuditor { audit_trail: Vec::new(), max_audit_entries, security_rules: rules }
    }

    /// Appends an entry dated `now` with no metadata, keeping the newest
    /// `max_entries` entries (see `trail_after`).
    pub fn log_event_at(&mut self, event_type: AuditEventType, severity: AuditSeverity, actor: String, details: String, now: u64)
        ensures
            final(self).trail().len() == trail_after(old(self).trail(), final(self).trail().last(), old(self).max_entries()).len(),
            final(self).trail().len() > 0 ==> {
                let e = final(self).trail().last();
                &&& final(self).trail() == trail_after(old(self).trail(), e, old(self).max_entries())
                &&& e.timestamp == now
                &&& e.event_type == event_type
                &&& e.severity == severity
                &&& e.actor == actor
                &&& e.details == details
                &&& e.metadata@ == Map::<Seq<char>, String>::empty()
            },
            final(self).max_entries() == 0 ==> final(self).trail().len() == 0,
            final(self).max_entries() == old(self).max_entries(),
            final(self).rules() == old(self).rules(),
    {
        let entry = AuditEntry { timestamp: now, event_type, severity, actor, details, metadata: StringMap::new() };
        let ghost e = entry;
        self.audit_trail.push(entry);
        if self.audit_trail.len() > self.max_audit_entries {
            let excess = self.audit_trail.len() - self.max_audit_entries;
            let ghost full = self.audit_trail@;
            let kept = self.audit_trail.split_off(excess);
            self.audit_trail = kept;
            assert(self.audit_trail@ =~= full.skip(excess as int));
        }
        assert(self.audit_trail@ =~= trail_after(old(self).audit_trail@, e, self.max_audit_entries));
    }

    /// Appends an entry dated now (see `log_event_at`).
    pub fn log_event(&mut self, event_type: AuditEventType, severity: AuditSeverity, actor: String, details: String)
        ensures
            final(self).trail().len() > 0 ==> {
                let e = final(self).trail().last();
                &&& final(self).trail() == trail_after(old(self).trail(), e, old(self).max_entries())
                &&& e.event_type == event_type
                &&& e.severity == severity
                &&& e.actor == actor
                &&& e.details == details
            },
            final(self).max_entries() == old(self).max_entries(),
            final(self).rules() == old(self).rules(),
    {
        let t = now_secs();
        self.log_event_at(event_type, severity, actor, details, t);
    }

    /// The rules that fire on `event`, in order (see `rule_fires`).
    pub fn check_security_rules(&self, event: &AuditEntry) -> (r: Vec<&SecurityRule>)
        ensures
            r@.map_values(|x: &SecurityRule| *x) == firing_rules(self.rules(), *event),
    {
        let details = chars_of(event.details.as_str());
        let mut out: Vec<&SecurityRule> = Vec::new();
        let mut i: usize = 0;
        while i < self.security_rules.len()
            invariant
                i <= self.security_rules@.len(),
                details@ == event.details@,
                out@.map_values(|x: &SecurityRule| *x) == firing_rules(self.security_rules@.take(i as int), *event),
            decreases self.security_rules@.len() - i,
        {
            let rule = &self.security_rules[i];
            assert(self.security_rules@.take(i + 1).drop_last() =~= self.security_rules@.take(i as int));
            let fires = if !rule.enabled {
                false
            } else {
                match &rule.condition {
                    SecurityCondition::ExecutionThreshold { max_gas } => {
                        if event.event_type == AuditEventType::ExecutionStarted {
                            let gas_text = decimal_string(*max_gas);
                            let pattern = chars_of(gas_text.as_str());
                            contains_chars(&details, &pattern)
                        } else {
                            false
                        }
                    },
                    SecurityCondition::GovernanceSpam { .. } => event.event_type == AuditEventType::ProposalCreated,
                    _ => false,
                }
            };
            if fires {
                let ghost before = out@;
                out.push(rule);
                assert(out@.map_values(|x: &SecurityRule| *x) =~= before.map_values(|x: &SecurityRule| *x).push(*rule));
            }
            i = i + 1;
        }
        assert(self.security_rules@.take(i as int) =~= self.security_rules@);
        out
    }

    /// Copies of the newest `count` entries (all of them when there are
    /// fewer), oldest first.
    pub fn get_recent_audits(&self, count: usize) -> (r: Vec<AuditEntry>)
        ensures
            same_entries(r@, self.trail().skip(if self.trail().len() > count { self.trail().len() - count } else { 0 })),
    {
        let start = if self.audit_trail.len() > count {
            self.audit_trail.len() - count
        } else {
            0
        };
        let ghost want = self.audit_trail@.skip(start as int);
        let mut out: Vec<AuditEntry> = Vec::new();
        let mut i: usize = start;
        while i < self.audit_trail.len()
            invariant
                start <= i <= self.audit_trail@.len(),
                want == self.audit_trail@.skip(start as int),
                out@.len() == i - start,
                forall|j: int| 0 <= j < out@.len() ==> #[trigger] same_entry(out@[j], want[j]),
            decreases self.audit_trail@.len() - i,
        {
            let e = self.audit_trail[i].clone();
            out.push(e);
            i = i + 1;
        }
        out
    }

    /// Copies of the alerts of the last `hours` hours as of `now`, oldest
    /// first (see `is_alert`).
    pub fn get_security_alerts_at(&self, hours: u64, now: u64) -> (r: Vec<AuditEntry>)
        requires
            hours * 3600 <= now,
        ensures
            same_entries(r@, alerts(self.trail(), now - hours * 3600)),
    {
        let cutoff = now - hours * 3600;
        let mut out: Vec<AuditEntry> = Vec::new();
        let mut i: usize = 0;
        while i < self.audit_trail.len()
            invariant
                i <= self.audit_trail@.len(),
                cutoff == now - hours * 3600,
                same_entries(out@, alerts(self.audit_trail@.take(i as int), cutoff as int)),
            decreases self.audit_trail@.len() - i,
        {
            let e = &self.audit_trail[i];
            assert(self.audit_trail@.take(i + 1).drop_last() =~= self.audit_trail@.take(i as int));
            if e.timestamp >= cutoff && e.severity != AuditSeverity::Info {
                let c = e.clone();
                out.push(c);
            }
            i = i + 1;
        }
        assert(self.audit_trail@.take(i as int) =~= self.audit_trail@);
        out
    }

    /// Copies of the alerts of the last `hours` hours (see
    /// `get_security_alerts_at`); none when `hours` reaches back before the
    /// clock's epoch.
    pub fn get_security_alerts(&self, hours: u64) -> (r: Vec<AuditEntry>)
        ensures
            exists|t: u64| #[trigger] alerts_as_of(r@, self.trail(), hours, t),
    {
        let t = now_secs();
        if hours > u64::MAX / 3600 || hours * 3600 > t {
            let r: Vec<AuditEntry> = Vec::new();
            assert(alerts_as_of(r@, self.trail(), hours, t));
            return r;
        }
        let r = self.get_security_alerts_at(hours, t);
        assert(alerts_as_of(r@, self.trail(), hours, t));
        r
    }
}

} // verus!
