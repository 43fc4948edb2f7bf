//! Threat detection: rules that turn audit entries into security events,
//! threat statistics, and the grouping of events by actor. Confidence
//! scores are fractions and are attached outside this module.
use vstd::prelude::*;

use crate::monitoring::{AuditEntry, AuditEventType, AuditSeverity};
use crate::text::{push_decimal, push_str, str_eq};

verus! {

/// The kinds of known threats.
#[derive(Debug, Clone, Copy, PartialEq, Eq, Structural)]
pub enum ThreatType {
    DdosAttack,
    SybilAttack,
    ConsensusFailure,
    StateCorruption,
    GovernanceManipulation,
    ExecutionViolation,
    NetworkInfiltration,
    ResourceExhaustion,
    DataTampering,
    IdentitySpoofing,
}

/// The kinds of security events.
#[derive(Debug, Clone, Copy, PartialEq, Eq, Structural)]
pub enum SecurityEventType {
    SuspiciousLogin,
    UnauthorizedAccess,
    StateModification,
    ConsensusAnomaly,
    GovernanceAbuse,
    ResourceAbuse,
    NetworkAnomaly,
    SmartContractViolation,
    IdentityFraud,
    DoubleSpending,
    MaliciousProposal,
    ByzantineBehavior,
}

/// Where the handling of a security event stands.
#[derive(Debug, Clone, Copy, PartialEq, Eq, Structural)]
pub enum SecurityEventStatus {
    New,
    Investigating,
    Resolved,
    Escalated,
    Closed,
}

/// What a detection rule looks for. Durations are in seconds.
#[derive(Debug, Clone, Copy, PartialEq, Eq, Structural)]
pub enum DetectionCondition {
    ConsensusAnomaly { max_round_time: u64, max_votes_per_round: u64 },
    GovernanceSpam { max_proposals_per_minute: u64 },
    ResourceAbuse { max_gas_per_minute: u64 },
    NetworkAnomaly { max_connections_per_second: u64 },
    StateTampering,
    IdentitySpoofing,
}

/// What is done when a detection rule fires.
#[derive(Debug, Clone, Copy, PartialEq, Eq, Structural)]
pub enum DetectionAction {
    LogOnly,
    Alert,
    Throttle,
    Block,
    Quarantine,
    Escalate,
}

/// A rule that turns audit entries into security events.
#[derive(Debug)]
pub struct DetectionRule {
    pub name: String,
    pub description: String,
    pub condition: DetectionCondition,
    pub action: DetectionAction,
    pub enabled: bool,
}

/// The detection rules a security analyzer starts with: a consensus anomaly
/// detector (30-second rounds, 100 votes, alert), a governance spam detector
/// (10 proposals a minute, throttle) and an execution resource abuse
/// detector (10^6 gas a minute, block), all enabled.
pub fn default_detection_rules() -> (r: Vec<DetectionRule>)
    ensures
        r@.len() == 3,
        r@[0].name@ == "consensus_anomaly_detector"@,
        r@[0].description@ == "Detects unusual consensus patterns"@,
        r@[0].condition == (DetectionCondition::ConsensusAnomaly { max_round_time: 30, max_votes_per_round: 100 }),
        r@[0].action == DetectionAction::Alert,
        r@[1].name@ == "governance_spam_detector"@,
        r@[1].description@ == "Detects governance proposal spam"@,
        r@[1].condition == (DetectionCondition::GovernanceSpam { max_proposals_per_minute: 10 }),
        r@[1].action == DetectionAction::Throttle,
        r@[2].name@ == "execution_resource_abuse"@,
        r@[2].description@ == "Detects excessive resource consumption"@,
        r@[2].condition == (DetectionCondition::ResourceAbuse { max_gas_per_minute: 1_000_000 }),
        r@[2].action == DetectionAction::Block,
        forall|i: int| 0 <= i < 3 ==> #[trigger] r@[i].enabled,
{
    let mut rules: Vec<DetectionRule> = Vec::new();
    rules.push(DetectionRule {
        name: String::from_str("consensus_anomaly_detector"),
        description: String::from_str("Detects unusual consensus patterns"),
        condition: DetectionCondition::ConsensusAnomaly { max_round_time: 30, max_votes_per_round: 100 },
        action: DetectionAction::Alert,
        enabled: true,
    });
    rules.push(DetectionRule {
        name: String::from_str("governance_spam_detector"),
        description: String::from_str("Detects governance proposal spam"),
        condition: DetectionCondition::GovernanceSpam { max_proposals_per_minute: 10 },
        action: DetectionAction::Throttle,
        enabled: true,
    });
    rules.push(DetectionRule {
        name: String::from_str("execution_resource_abuse"),
        description: String::from_str("Detects excessive resource consumption"),
        condition: DetectionCondition::ResourceAbuse { max_gas_per_minute: 1_000_000 },
        action: DetectionAction::Block,
        enabled: true,
    });
    rules
}

/// The kind of audit event each condition watches.
pub open spec fn watched_event(c: DetectionCondition) -> AuditEventType {
    match c {
        DetectionCondition::ConsensusAnomaly { .. } => AuditEventType::ConsensusRound,
        DetectionCondition::GovernanceSpam { .. } => AuditEventType::ProposalCreated,
        DetectionCondition::ResourceAbuse { .. } => AuditEventType::ExecutionStarted,
        DetectionCondition::NetworkAnomaly { .. } => AuditEventType::NetworkConnection,
        DetectionCondition::StateTampering => AuditEventType::StateTransition,
        DetectionCondition::IdentitySpoofing => AuditEventType::SecurityViolation,
    }
}

/// Whether `entry` matches `rule`: its event is the kind the rule's condition
/// watches (thresholds are not consulted).
pub fn matches_detection_rule(entry: &AuditEntry, rule: &DetectionRule) -> (r: bool)
    ensures
        r == (entry.event_type == watched_event(rule.condition)),
{
    match rule.condition {
        DetectionCondition::ConsensusAnomaly { .. } => entry.event_type == AuditEventType::ConsensusRound,
        DetectionCondition::GovernanceSpam { .. } => entry.event_type == AuditEventType::ProposalCreated,
        DetectionCondition::ResourceAbuse { .. } => entry.event_type == AuditEventType::ExecutionStarted,
        DetectionCondition::NetworkAnomaly { .. } => entry.event_type == AuditEventType::NetworkConnection,
        DetectionCondition::StateTampering => entry.event_type == AuditEventType::StateTransition,
        DetectionCondition::IdentitySpoofing => entry.event_type == AuditEventType::SecurityViolation,
    }
}

/// The kind of security event an audit event raises.
pub open spec fn event_type_for(t: AuditEventType) -> SecurityEventType {
    match t {
        AuditEventType::ExecutionStarted => SecurityEventType::SmartContractViolation,
        AuditEventType::StateTransition => SecurityEventType::StateModification,
        AuditEventType::ProposalCreated => SecurityEventType::GovernanceAbuse,
        AuditEventType::VoteCast => SecurityEventType::GovernanceAbuse,
        AuditEventType::ConsensusRound => SecurityEventType::ConsensusAnomaly,
        AuditEventType::NetworkConnection => SecurityEventType::NetworkAnomaly,
        AuditEventType::SecurityViolation => SecurityEventType::UnauthorizedAccess,
        _ => SecurityEventType::SuspiciousLogin,
    }
}

/// The kind of security event an audit event raises (see `event_type_for`).
pub fn security_event_type_for(t: AuditEventType) -> (r: SecurityEventType)
    ensures
        r == event_type_for(t),
{
    match t {
        AuditEventType::ExecutionStarted => SecurityEventType::SmartContractViolation,
        AuditEventType::StateTransition => SecurityEventType::StateModification,
        AuditEventType::ProposalCreated => SecurityEventType::GovernanceAbuse,
        AuditEventType::VoteCast => SecurityEventType::GovernanceAbuse,
        AuditEventType::ConsensusRound => SecurityEventType::ConsensusAnomaly,
        AuditEventType::NetworkConnection => SecurityEventType::NetworkAnomaly,
        AuditEventType::SecurityViolation => SecurityEventType::UnauthorizedAccess,
        _ => SecurityEventType::SuspiciousLogin,
    }
}

/// The id of the security event raised by `audit`: "sev_", its timestamp,
/// "_" and its actor.
pub fn security_event_id(audit: &AuditEntry) -> (r: String)
    ensures
        r@ == "sev_"@ + crate::text::decimal(audit.timestamp as nat) + "_"@ + audit.actor@,
{
    let mut id = String::from_str("sev_");
    push_decimal(&mut id, audit.timestamp);
    push_str(&mut id, "_");
    push_str(&mut id, audit.actor.as_str());
    id
}

/// The details of the security event `rule` raises from `audit`.
pub fn security_event_details(audit: &AuditEntry, rule: &DetectionRule) -> (r: String)
    ensures
        r@ == "Triggered by rule '"@ + rule.name@ + "': "@ + audit.details@,
{
    let mut d = String::from_str("Triggered by rule '");
    push_str(&mut d, rule.name.as_str());
    push_str(&mut d, "': ");
    push_str(&mut d, audit.details.as_str());
    d
}

/// Counts of security events.
#[derive(Debug, Clone, Copy, PartialEq, Eq, Structural)]
pub struct ThreatStatistics {
    pub total_threats: usize,
    pub critical_events: u64,
    pub error_events: u64,
    pub warning_events: u64,
    pub info_events: u64,
    pub consensus_anomalies: u64,
    pub governance_abuses: u64,
    pub resource_abuses: u64,
    pub other_events: u64,
    pub active_events: usize,
    pub resolved_events: usize,
}

/// The statistics of `events` (with `total_threats` known threats): events
/// are counted by severity and by kind (consensus anomalies, governance
/// abuses, resource abuses, others), and those new or under investigation
/// are active.
pub open spec fn tally(events: Seq<(AuditSeverity, SecurityEventType, SecurityEventStatus)>, total_threats: usize) -> ThreatStatistics
    decreases events.len(),
{
    if events.len() == 0 {
        ThreatStatistics {
            total_threats,
            critical_events: 0,
            error_events: 0,
            warning_events: 0,
            info_events: 0,
            consensus_anomalies: 0,
            governance_abuses: 0,
            resource_abuses: 0,
            other_events: 0,
            active_events: 0,
            resolved_events: 0,
        }
    } else {
        let s = tally(events.drop_last(), total_threats);
        let (sev, kind, status) = events.last();
        ThreatStatistics {
            critical_events: (s.critical_events + if sev == AuditSeverity::Critical { 1int } else { 0 }) as u64,
            error_events: (s.error_events + if sev == AuditSeverity::Error { 1int } else { 0 }) as u64,
            warning_events: (s.warning_events + if sev == AuditSeverity::Warning { 1int } else { 0 }) as u64,
            info_events: (s.info_events + if sev == AuditSeverity::Info { 1int } else { 0 }) as u64,
            consensus_anomalies: (s.consensus_anomalies + if kind == SecurityEventType::ConsensusAnomaly { 1int } else { 0 }) as u64,
            governance_abuses: (s.governance_abuses + if kind == SecurityEventType::GovernanceAbuse { 1int } else { 0 }) as u64,
            resource_abuses: (s.resource_abuses + if kind == SecurityEventType::ResourceAbuse { 1int } else { 0 }) as u64,
            other_events: (s.other_events + if kind != SecurityEventType::ConsensusAnomaly && kind
                != SecurityEventType::GovernanceAbuse && kind != SecurityEventType::ResourceAbuse { 1int } else { 0 }) as u64,
            active_events: (s.active_events + if status == SecurityEventStatus::New || status
                == SecurityEventStatus::Investigating { 1int } else { 0 }) as usize,
            ..s
        }
    }
}

proof fn lemma_tally_bounds(events: Seq<(AuditSeverity, SecurityEventType, SecurityEventStatus)>, total_threats: usize)
    ensures
        ({
            let s = tally(events, total_threats);
            &&& s.total_threats == total_threats
            &&& s.resolved_events == 0
            &&& s.critical_events <= events.len()
            &&& s.error_events <= events.len()
            &&& s.warning_events <= events.len()
            &&& s.info_events <= events.len()
            &&& s.consensus_anomalies <= events.len()
            &&& s.governance_abuses <= events.len()
            &&& s.resource_abuses <= events.len()
            &&& s.other_events <= events.len()
            &&& s.active_events <= events.len()
        }),
    decreases events.len(),
{
    if events.len() > 0 {
        lemma_tally_bounds(events.drop_last(), total_threats);
    }
}

impl ThreatStatistics {
    /// All counts zero.
    pub fn new() -> (s: Self)
        ensures
            s == tally(Seq::empty(), 0),
    {
        ThreatStatistics {
            total_threats: 0,
            critical_events: 0,
            error_events: 0,
            warning_events: 0,
            info_events: 0,
            consensus_anomalies: 0,
            governance_abuses: 0,
            resource_abuses: 0,
            other_events: 0,
            active_events: 0,
            resolved_events: 0,
        }
    }

    /// The statistics of `events` (see `tally`).
    pub fn from_events(events: &Vec<(AuditSeverity, SecurityEventType, SecurityEventStatus)>, total_threats: usize) -> (s: Self)
        ensures
            s == tally(events@, total_threats),
    {
        let mut s = ThreatStatistics::new();
        s.total_threats = total_threats;
        let mut i: usize = 0;
        while i < events.len()
            invariant
                i <= events@.len(),
                s == tally(events@.take(i as int), total_threats),
            decreases events@.len() - i,
        {
            assert(events@.take(i + 1).drop_last() =~= events@.take(i as int));
            proof {
                lemma_tally_bounds(events@.take(i as int), total_threats);
            }
            let (sev, kind, status) = events[i];
            match sev {
                AuditSeverity::Critical => s.critical_events = s.critical_events + 1,
                AuditSeverity::Error => s.error_events = s.error_events + 1,
                AuditSeverity::Warning => s.warning_events = s.warning_events + 1,
                AuditSeverity::Info => s.info_events = s.info_events + 1,
            }
            match kind {
                SecurityEventType::ConsensusAnomaly => s.consensus_anomalies = s.consensus_anomalies + 1,
                SecurityEventType::GovernanceAbuse => s.governance_abuses = s.governance_abuses + 1,
                SecurityEventType::ResourceAbuse => s.resource_abuses = s.resource_abuses + 1,
                _ => s.other_events = s.other_events + 1,
            }
            if status == SecurityEventStatus::New || status == SecurityEventStatus::Investigating {
                s.active_events = s.active_events + 1;
            }
            i = i + 1;
        }
        assert(events@.take(i as int) =~= events@);
        s
    }
}

impl Default for ThreatStatistics {
    fn default() -> (s: Self)
        ensures
            s == tally(Seq::empty(), 0),
    {
        Self::new()
    }
}

/// A security event raised from an audit entry. Its confidence, a
/// fraction, is kept beside it by the caller.
#[derive(Debug)]
pub struct SecurityEvent {
    pub id: String,
    pub event_type: SecurityEventType,
    pub severity: AuditSeverity,
    pub source: String,
    pub target: String,
    pub details: String,
    pub timestamp: u64,
    pub related_events: Vec<String>,
    pub status: SecurityEventStatus,
}

/// A security event as plain values.
pub struct SecurityEventView {
    pub id: Seq<char>,
    pub event_type: SecurityEventType,
    pub severity: AuditSeverity,
    pub source: Seq<char>,
    pub target: Seq<char>,
    pub details: Seq<char>,
    pub timestamp: u64,
    pub related_events: Seq<String>,
    pub status: SecurityEventStatus,
}

impl View for SecurityEvent {
    type V = SecurityEventView;

    open spec fn view(&self) -> SecurityEventView {
        SecurityEventView {
            id: self.id@,
            event_type: self.event_type,
            severity: self.severity,
            source: self.source@,
            target: self.target@,
            details: self.details@,
            timestamp: self.timestamp,
            related_events: self.related_events@,
            status: self.status,
        }
    }
}

impl Clone for SecurityEvent {
    fn clone(&self) -> (r: Self)
        ensures
            r@ == self@,
    {
        SecurityEvent {
            id: self.id.clone(),
            event_type: self.event_type,
            severity: self.severity,
            source: self.source.clone(),
            target: self.target.clone(),
            details: self.details.clone(),
            timestamp: self.timestamp,
            related_events: crate::text::clone_strings(&self.related_events),
            status: self.status,
        }
    }
}

/// The views of a list of security events.
pub open spec fn event_views(s: Seq<SecurityEvent>) -> Seq<SecurityEventView> {
    s.map_values(|e: SecurityEvent| e@)
}

/// The security event that `rule` raises from `audit`: its id is "sev_",
/// the timestamp, "_" and the actor; its kind follows the audit event; its
/// source is the actor and its target "system"; it is new and relates to
/// no other event.
pub open spec fn raised_event(audit: AuditEntry, rule: DetectionRule) -> SecurityEventView {
    SecurityEventView {
        id: "sev_"@ + crate::text::decimal(audit.timestamp as nat) + "_"@ + audit.actor@,
        event_type: event_type_for(audit.event_type),
        severity: audit.severity,
        source: audit.actor@,
        target: "system"@,
        details: "Triggered by rule '"@ + rule.name@ + "': "@ + audit.details@,
        timestamp: audit.timestamp,
        related_events: Seq::empty(),
        status: SecurityEventStatus::New,
    }
}

/// Raises the security event of `rule` from `audit` (see `raised_event`).
pub fn create_security_event_from_audit(audit: &AuditEntry, rule: &DetectionRule) -> (r: SecurityEvent)
    ensures
        r@ == raised_event(*audit, *rule),
{
    let r = SecurityEvent {
        id: security_event_id(audit),
        event_type: security_event_type_for(audit.event_type),
        severity: audit.severity,
        source: audit.actor.clone(),
        target: String::from_str("system"),
        details: security_event_details(audit, rule),
        timestamp: audit.timestamp,
        related_events: Vec::new(),
        status: SecurityEventStatus::New,
    };
    assert(r@.related_events =~= Seq::<String>::empty());
    r
}

/// The events the first `k` rules raise from `audit`: one for each enabled
/// rule whose condition watches the audit's kind of event, in rule order.
pub open spec fn raised_by_rules(audit: AuditEntry, rules: Seq<DetectionRule>) -> Seq<SecurityEventView>
    decreases rules.len(),
{
    if rules.len() == 0 {
        Seq::empty()
    } else {
        let before = raised_by_rules(audit, rules.drop_last());
        let rule = rules.last();
        if rule.enabled && audit.event_type == watched_event(rule.condition) {
            before.push(raised_event(audit, rule))
        } else {
            before
        }
    }
}

/// The events `rules` raise from `audits`, audit by audit.
pub open spec fn raised_events(audits: Seq<AuditEntry>, rules: Seq<DetectionRule>) -> Seq<SecurityEventView>
    decreases audits.len(),
{
    if audits.len() == 0 {
        Seq::empty()
    } else {
        raised_events(audits.drop_last(), rules) + raised_by_rules(audits.last(), rules)
    }
}

/// Checks each audit entry against each enabled detection rule and raises
/// an event for every match (see `raised_events`).
pub fn detect_threats(audits: &Vec<AuditEntry>, rules: &Vec<DetectionRule>) -> (r: Vec<SecurityEvent>)
    ensures
        event_views(r@) == raised_events(audits@, rules@),
{
    let mut out: Vec<SecurityEvent> = Vec::new();
    let mut i: usize = 0;
    while i < audits.len()
        invariant
            i <= audits@.len(),
            event_views(out@) == raised_events(audits@.take(i as int), rules@),
        decreases audits@.len() - i,
    {
        assert(audits@.take(i + 1).drop_last() =~= audits@.take(i as int));
        let ghost before = event_views(out@);
        let mut j: usize = 0;
        while j < rules.len()
            invariant
                i < audits@.len(),
                j <= rules@.len(),
                event_views(out@) == before + raised_by_rules(audits@[i as int], rules@.take(j as int)),
            decreases rules@.len() - j,
        {
            assert(rules@.take(j + 1).drop_last() =~= rules@.take(j as int));
            let rule = &rules[j];
            if rule.enabled && matches_detection_rule(&audits[i], rule) {
                let ev = create_security_event_from_audit(&audits[i], rule);
                let ghost prev = out@;
                out.push(ev);
                assert(out@ == prev.push(ev));
                assert(event_views(out@) =~= event_views(prev).push(ev@));
                assert(event_views(out@) =~= before + raised_by_rules(audits@[i as int], rules@.take(j as int)).push(
                    raised_event(audits@[i as int], rules@[j as int]),
                ));
            }
            j = j + 1;
        }
        assert(rules@.take(j as int) =~= rules@);
        i = i + 1;
    }
    assert(audits@.take(i as int) =~= audits@);
    out
}

/// The last `limit` items of `s`, or all of them when there are no more.
pub open spec fn keep_recent<T>(s: Seq<T>, limit: nat) -> Seq<T> {
    if s.len() > limit {
        s.subrange(s.len() - limit, s.len() as int)
    } else {
        s
    }
}

/// A bounded log holds at most its limit, and what it holds is the newest
/// part of what was recorded, in order.
pub proof fn lemma_keep_recent_bounded<T>(s: Seq<T>, limit: nat)
    ensures
        keep_recent(s, limit).len() == if s.len() > limit { limit } else { s.len() },
        keep_recent(s, limit) == s.skip(s.len() - keep_recent(s, limit).len()),
{
    if s.len() > limit {
        assert(s.subrange(s.len() - limit, s.len() as int) =~= s.skip(s.len() - limit));
    } else {
        assert(s.skip(0) =~= s);
    }
}

/// Drops the oldest items of `items` until at most `limit` remain.
pub fn retain_recent<T>(items: &mut Vec<T>, limit: usize)
    ensures
        final(items)@ == keep_recent(old(items)@, limit as nat),
{
    if items.len() > limit {
        let at = items.len() - limit;
        let kept = items.split_off(at);
        *items = kept;
    }
}

/// How many security events, and how many pieces of threat intelligence,
/// an analyzer keeps.
pub const SECURITY_LOG_LIMIT: usize = 1000;

/// The events among `s` with status `status`, in order.
pub open spec fn with_status(s: Seq<SecurityEventView>, status: SecurityEventStatus) -> Seq<SecurityEventView>
    decreases s.len(),
{
    if s.len() == 0 {
        s
    } else if s.last().status == status {
        with_status(s.drop_last(), status).push(s.last())
    } else {
        with_status(s.drop_last(), status)
    }
}

/// The position of the first event of `s` with id `id`.
pub open spec fn first_with_id(s: Seq<SecurityEventView>, id: Seq<char>) -> Option<int>
    decreases s.len(),
{
    if s.len() == 0 {
        None
    } else if s[0].id == id {
        Some(0)
    } else {
        match first_with_id(s.drop_first(), id) {
            Some(k) => Some(k + 1),
            None => None,
        }
    }
}

proof fn lemma_first_with_id(s: Seq<SecurityEventView>, id: Seq<char>)
    ensures
        first_with_id(s, id) matches Some(k) ==> 0 <= k < s.len() && s[k].id == id
            && forall|m: int| 0 <= m < k ==> s[m].id != id,
        first_with_id(s, id) is None ==> forall|m: int| 0 <= m < s.len() ==> s[m].id != id,
    decreases s.len(),
{
    if s.len() > 0 && s[0].id != id {
        lemma_first_with_id(s.drop_first(), id);
        assert forall|m: int| 1 <= m < s.len() implies s[m] == s.drop_first()[m - 1] by {}
    }
}

/// What statistics read of each event: severity, kind and status.
pub open spec fn summaries(s: Seq<SecurityEventView>) -> Seq<(AuditSeverity, SecurityEventType, SecurityEventStatus)> {
    s.map_values(|e: SecurityEventView| (e.severity, e.event_type, e.status))
}

/// The security events an analyzer has raised, the most recent
/// `SECURITY_LOG_LIMIT` of them, oldest first.
#[derive(Debug)]
pub struct SecurityEventLog {
    pub events: Vec<SecurityEvent>,
}

impl SecurityEventLog {
    /// The views of the kept events.
    pub open spec fn views(&self) -> Seq<SecurityEventView> {
        event_views(self.events@)
    }

    /// An empty log.
    pub fn new() -> (l: Self)
        ensures
            l.views() == Seq::<SecurityEventView>::empty(),
    {
        let l = SecurityEventLog { events: Vec::new() };
        assert(l.views() =~= Seq::<SecurityEventView>::empty());
        l
    }

    /// Adds `new_events` after the kept ones, then keeps only the most
    /// recent `SECURITY_LOG_LIMIT`.
    pub fn record(&mut self, new_events: Vec<SecurityEvent>)
        ensures
            final(self).views() == keep_recent(old(self).views() + event_views(new_events@), SECURITY_LOG_LIMIT as nat),
    {
        let mut more = new_events;
        let ghost all = self.events@ + more@;
        self.events.append(&mut more);
        retain_recent(&mut self.events, SECURITY_LOG_LIMIT);
        assert(event_views(all) =~= old(self).views() + event_views(new_events@));
        assert(self.views() =~= keep_recent(event_views(all), SECURITY_LOG_LIMIT as nat));
    }

    /// Copies of the last `count` events (all of them when there are fewer).
    pub fn recent(&self, count: usize) -> (r: Vec<SecurityEvent>)
        ensures
            event_views(r@) == keep_recent(self.views(), count as nat),
    {
        let n = self.events.len();
        let start: usize = if n > count { n - count } else { 0 };
        let mut out: Vec<SecurityEvent> = Vec::new();
        let mut i: usize = start;
        while i < n
            invariant
                start <= i <= n,
                n == self.events@.len(),
                event_views(out@) == self.views().subrange(start as int, i as int),
            decreases n - i,
        {
            let e = self.events[i].clone();
            let ghost prev = out@;
            out.push(e);
            assert(event_views(out@) =~= event_views(prev).push(e@));
            assert(event_views(out@) =~= self.views().subrange(start as int, i + 1));
            i = i + 1;
        }
        assert(self.views().subrange(0, n as int) =~= self.views());
        out
    }

    /// Copies of the events with status `status`, in order.
    pub fn with_status(&self, status: SecurityEventStatus) -> (r: Vec<SecurityEvent>)
        ensures
            event_views(r@) == with_status(self.views(), status),
    {
        let mut out: Vec<SecurityEvent> = Vec::new();
        let mut i: usize = 0;
        while i < self.events.len()
            invariant
                i <= self.events@.len(),
                event_views(out@) == with_status(self.views().take(i as int), status),
            decreases self.events@.len() - i,
        {
            assert(self.views().take(i + 1).drop_last() =~= self.views().take(i as int));
            if self.events[i].status == status {
                let e = self.events[i].clone();
                let ghost prev = out@;
                out.push(e);
                assert(event_views(out@) =~= event_views(prev).push(e@));
                assert(event_views(out@) =~= with_status(self.views().take(i as int), status).push(self.views()[i as int]));
            }
            i = i + 1;
        }
        assert(self.views().take(i as int) =~= self.views());
        out
    }

    /// Sets the status of the first event with id `event_id`; false when
    /// no event has that id.
    pub fn update_status(&mut self, event_id: &str, status: SecurityEventStatus) -> (found: bool)
        ensures
            found == (first_with_id(old(self).views(), event_id@) is Some),
            match first_with_id(old(self).views(), event_id@) {
                Some(k) => final(self).views() == old(self).views().update(
                    k,
                    SecurityEventView { status, ..old(self).views()[k] },
                ),
                None => final(self).views() == old(self).views(),
            },
    {
        proof {
            lemma_first_with_id(self.views(), event_id@);
        }
        let mut i: usize = 0;
        while i < self.events.len()
            invariant
                i <= self.events@.len(),
                self.events@ == old(self).events@,
                forall|m: int| 0 <= m < i ==> old(self).views()[m].id != event_id@,
            decreases self.events@.len() - i,
        {
            if str_eq(self.events[i].id.as_str(), event_id) {
                let mut e = self.events.remove(i);
                e.status = status;
                self.events.insert(i, e);
                proof {
                    lemma_first_with_id(old(self).views(), event_id@);
                    let k = first_with_id(old(self).views(), event_id@);
                    assert(old(self).views()[i as int].id == event_id@);
                    if let Some(k0) = k {
                        if k0 < i {
                            assert(old(self).views()[k0].id != event_id@);
                        } else if k0 > i {
                            assert(old(self).views()[i as int].id != event_id@);
                        }
                    }
                    assert(k == Some(i as int));
                }
                assert(self.views() =~= old(self).views().update(
                    i as int,
                    SecurityEventView { status, ..old(self).views()[i as int] },
                ));
                return true;
            }
            i = i + 1;
        }
        false
    }

    /// The statistics of the kept events, with `total_threats` pieces of
    /// threat intelligence (see `tally`).
    pub fn statistics(&self, total_threats: usize) -> (s: ThreatStatistics)
        ensures
            s == tally(summaries(self.views()), total_threats),
    {
        let mut rows: Vec<(AuditSeverity, SecurityEventType, SecurityEventStatus)> = Vec::new();
        let mut i: usize = 0;
        while i < self.events.len()
            invariant
                i <= self.events@.len(),
                rows@ == summaries(self.views()).take(i as int),
            decreases self.events@.len() - i,
        {
            let e = &self.events[i];
            rows.push((e.severity, e.event_type, e.status));
            assert(rows@ =~= summaries(self.views()).take(i + 1));
            i = i + 1;
        }
        assert(summaries(self.views()).take(i as int) =~= summaries(self.views()));
        ThreatStatistics::from_events(&rows, total_threats)
    }
}

/// A condition of a correlation rule. Durations are in seconds.
#[derive(Debug)]
pub enum CorrelationCondition {
    SameActor,
    SameTarget,
    TimeProximity { max_interval: u64 },
    EventTypeSequence { sequence: Vec<SecurityEventType> },
    SeverityThreshold { min_severity: AuditSeverity },
}

/// A rule that relates security events.
#[derive(Debug)]
pub struct CorrelationRule {
    pub name: String,
    pub conditions: Vec<CorrelationCondition>,
    pub conclusion: String,
}

/// Relates security events.
#[derive(Debug)]
pub struct CorrelationEngine {
    pub correlation_rules: Vec<CorrelationRule>,
}

/// The actors of `sources` in order of first appearance, each with the
/// positions where it appears.
pub open spec fn groups_of(sources: Seq<Seq<char>>) -> Seq<(Seq<char>, Seq<usize>)>
    decreases sources.len(),
{
    if sources.len() == 0 {
        Seq::empty()
    } else {
        let g = groups_of(sources.drop_last());
        let a = sources.last();
        let pos = (sources.len() - 1) as usize;
        match group_index(g, a) {
            Some(j) => g.update(j, (a, g[j].1.push(pos))),
            None => g.push((a, seq![pos])),
        }
    }
}

/// The position of actor `a` among the groups.
pub open spec fn group_index(g: Seq<(Seq<char>, Seq<usize>)>, a: Seq<char>) -> Option<int>
    decreases g.len(),
{
    if g.len() == 0 {
        None
    } else if g.last().0 == a {
        Some(g.len() - 1)
    } else {
        group_index(g.drop_last(), a)
    }
}

proof fn lemma_group_index(g: Seq<(Seq<char>, Seq<usize>)>, a: Seq<char>)
    ensures
        group_index(g, a) matches Some(j) ==> 0 <= j < g.len() && g[j].0 == a,
    decreases g.len(),
{
    if g.len() > 0 && g.last().0 != a {
        lemma_group_index(g.drop_last(), a);
    }
}

/// The groups that hold more than one event, in order.
pub open spec fn repeated_groups(g: Seq<(Seq<char>, Seq<usize>)>) -> Seq<(Seq<char>, Seq<usize>)>
    decreases g.len(),
{
    if g.len() == 0 {
        g
    } else if g.last().1.len() > 1 {
        repeated_groups(g.drop_last()).push(g.last())
    } else {
        repeated_groups(g.drop_last())
    }
}

impl CorrelationEngine {
    /// An engine with one rule, "consensus_then_governance_attack": a
    /// consensus anomaly followed by governance abuse within 60 seconds
    /// points to a coordinated attack.
    pub fn new() -> (e: Self)
        ensures
            e.correlation_rules@.len() == 1,
            e.correlation_rules@[0].name@ == "consensus_then_governance_attack"@,
            e.correlation_rules@[0].conclusion@ == "Potential coordinated attack on consensus and governance"@,
            e.correlation_rules@[0].conditions@.len() == 2,
            e.correlation_rules@[0].conditions@[0] matches CorrelationCondition::EventTypeSequence { sequence }
                && sequence@ == seq![SecurityEventType::ConsensusAnomaly, SecurityEventType::GovernanceAbuse],
            e.correlation_rules@[0].conditions@[1] == (CorrelationCondition::TimeProximity { max_interval: 60 }),
    {
        let mut sequence: Vec<SecurityEventType> = Vec::new();
        sequence.push(SecurityEventType::ConsensusAnomaly);
        sequence.push(SecurityEventType::GovernanceAbuse);
        let mut conditions: Vec<CorrelationCondition> = Vec::new();
        conditions.push(CorrelationCondition::EventTypeSequence { sequence });
        conditions.push(CorrelationCondition::TimeProximity { max_interval: 60 });
        let mut rules: Vec<CorrelationRule> = Vec::new();
        rules.push(CorrelationRule {
            name: String::from_str("consensus_then_governance_attack"),
            conditions,
            conclusion: String::from_str("Potential coordinated attack on consensus and governance"),
        });
        let e = CorrelationEngine { correlation_rules: rules };
        assert(e.correlation_rules@[0].conditions@[0] matches CorrelationCondition::EventTypeSequence { sequence }
            && sequence@ =~= seq![SecurityEventType::ConsensusAnomaly, SecurityEventType::GovernanceAbuse]);
        e
    }

    /// Groups the events by actor (their sources, in order): each actor in
    /// order of first appearance, with the positions of its events.
    pub fn group_by_actor(&self, sources: &Vec<String>) -> (r: Vec<(String, Vec<usize>)>)
        ensures
            r@.map_values(|x: (String, Vec<usize>)| (x.0@, x.1@)) == groups_of(sources@.map_values(|s: String| s@)),
    {
        let ghost srcs = sources@.map_values(|s: String| s@);
        let mut out: Vec<(String, Vec<usize>)> = Vec::new();
        let mut i: usize = 0;
        while i < sources.len()
            invariant
                i <= sources@.len(),
                srcs == sources@.map_values(|s: String| s@),
                out@.map_values(|x: (String, Vec<usize>)| (x.0@, x.1@)) == groups_of(srcs.take(i as int)),
            decreases sources@.len() - i,
        {
            let ghost g = groups_of(srcs.take(i as int));
            assert(srcs.take(i + 1).drop_last() =~= srcs.take(i as int));
            assert(srcs.take(i + 1).last() == sources@[i as int]@);
            let ghost a = sources@[i as int]@;
            let mut j: usize = out.len();
            let mut found = false;
            assert(g.take(j as int) =~= g);
            while j > 0 && !found
                invariant
                    i < sources@.len(),
                    a == sources@[i as int]@,
                    j <= out@.len(),
                    out@.map_values(|x: (String, Vec<usize>)| (x.0@, x.1@)) == g,
                    found ==> j > 0 && group_index(g, a) == Some(j - 1),
                    !found ==> group_index(g, a) == group_index(g.take(j as int), a),
                decreases j, if found { 0int } else { 1int },
            {
                assert(g.take(j as int).last() == g[j - 1]);
                assert(g.take(j as int).drop_last() =~= g.take(j - 1));
                if str_eq(out[j - 1].0.as_str(), sources[i].as_str()) {
                    found = true;
                } else {
                    j = j - 1;
                }
            }
            let ghost before = out@;
            if found {
                let mut entry = out.remove(j - 1);
                entry.1.push(i);
                out.insert(j - 1, entry);
                proof {
                    lemma_group_index(g, sources@[i as int]@);
                }
                assert(out@.map_values(|x: (String, Vec<usize>)| (x.0@, x.1@)) =~= g.update(
                    j - 1,
                    (sources@[i as int]@, g[j - 1].1.push(i)),
                ));
            } else {
                assert(g.take(0) =~= Seq::<(Seq<char>, Seq<usize>)>::empty());
                let mut positions: Vec<usize> = Vec::new();
                positions.push(i);
                out.push((sources[i].clone(), positions));
                assert(out@.map_values(|x: (String, Vec<usize>)| (x.0@, x.1@)) =~= g.push((sources@[i as int]@, seq![i])));
            }
            i = i + 1;
        }
        assert(srcs.take(i as int) =~= srcs);
        out
    }
    /// The actors with more than one event (their sources, in order), each
    /// with the positions of its events: the grounds for a
    /// "multiple_events_from_actor" correlation.
    pub fn repeated_actors(&self, sources: &Vec<String>) -> (r: Vec<(String, Vec<usize>)>)
        ensures
            r@.map_values(|x: (String, Vec<usize>)| (x.0@, x.1@))
                == repeated_groups(groups_of(sources@.map_values(|s: String| s@))),
    {
        let groups = self.group_by_actor(sources);
        let ghost g = groups@.map_values(|x: (String, Vec<usize>)| (x.0@, x.1@));
        let mut out: Vec<(String, Vec<usize>)> = Vec::new();
        let mut k: usize = 0;
        while k < groups.len()
            invariant
                k <= groups@.len(),
                g == groups@.map_values(|x: (String, Vec<usize>)| (x.0@, x.1@)),
                out@.map_values(|x: (String, Vec<usize>)| (x.0@, x.1@)) == repeated_groups(g.take(k as int)),
            decreases groups@.len() - k,
        {
            assert(g.take(k + 1).drop_last() =~= g.take(k as int));
            assert(g.take(k + 1).last() == g[k as int]);
            if groups[k].1.len() > 1 {
                let actor = groups[k].0.clone();
                let positions = groups[k].1.clone();
                out.push((actor, positions));
                assert(out@.map_values(|x: (String, Vec<usize>)| (x.0@, x.1@)) =~= repeated_groups(g.take(k as int)).push(g[k as int]));
            }
            k = k + 1;
        }
        assert(g.take(k as int) =~= g);
        out
    }
}

impl Default for CorrelationEngine {
    fn default() -> (e: Self)
        ensures
            e.correlation_rules@.len() == 1,
    {
        Self::new()
    }
}

} // verus!
