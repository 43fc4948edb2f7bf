//! Component health checks and the report built from their results. Each
//! check runs a small operation against its component and says whether it
//! behaved.
use vstd::prelude::*;

use crate::collections::StringMap;
use crate::consensus::ConsensusEngine;
use crate::execution::{
    initial_context, run, run_keeps_pc_in_range, step, ContextView, ExecutionEngine, ExecutionError,
    ExecutionResult, OpCode, AtomicDecisionUnit,
};
use crate::governance::{active_rules, GovernanceEngine};
use crate::monitoring::{HealthReport, HealthStatus};
use crate::state::{map_of, version_fits, StateStore};
use crate::text::{decimal, push_decimal, push_str};

verus! {

/// The outcome of one check.
#[derive(Debug)]
pub struct HealthCheckResult {
    pub component: String,
    pub status: HealthStatus,
    pub message: String,
    pub timestamp: u64,
    pub response_time_ms: u64,
}

impl Clone for HealthCheckResult {
    fn clone(&self) -> (r: Self)
        ensures
            r == *self,
    {
        HealthCheckResult {
            component: self.component.clone(),
            status: self.status,
            message: self.message.clone(),
            timestamp: self.timestamp,
            response_time_ms: self.response_time_ms,
        }
    }
}

/// Whether `r` says `component` is in `status` with `message`, at `now`, with
/// no response time recorded.
pub open spec fn reports(r: HealthCheckResult, component: Seq<char>, status: HealthStatus, message: Seq<char>, now: u64) -> bool {
    &&& r.component@ == component
    &&& r.status == status
    &&& r.message@ == message
    &&& r.timestamp == now
    &&& r.response_time_ms == 0
}

fn result_at(component: &str, status: HealthStatus, message: String, now: u64) -> (r: HealthCheckResult)
    ensures
        reports(r, component@, status, message@, now),
{
    HealthCheckResult { component: String::from_str(component), status, message, timestamp: now, response_time_ms: 0 }
}

// ---------------------------------------------------------------------------
// The checks.
// ---------------------------------------------------------------------------

/// The context the execution check runs in: gas limit 10^6, register 1 at
/// 10 and register 2 at 20.
pub open spec fn probe_context() -> ContextView {
    let c = initial_context(1000000);
    ContextView { registers: c.registers.update(1, 10).update(2, 20), ..c }
}

/// The program the execution check runs: register 0 := register 1 +
/// register 2.
pub open spec fn probe_program() -> Seq<OpCode> {
    seq![OpCode::ADD(0, 1, 2)]
}

/// The probe program runs to completion, without halting, and leaves 30 in
/// register 0.
pub proof fn lemma_probe_run()
    ensures
        run_keeps_pc_in_range(probe_context(), probe_program()),
        run(probe_context(), probe_program()).1 is None,
        !run(probe_context(), probe_program()).0.halted,
        run(probe_context(), probe_program()).0.registers[0] == 30,
{
    let c = probe_context();
    let p = probe_program();
    assert(c.registers[1] == 10 && c.registers[2] == 20);
    let s = step(c, p[0]);
    assert(s.1 is None);
    assert(s.0.registers[0] == 30);
    assert(p.drop_first() =~= Seq::<OpCode>::empty());
    reveal_with_fuel(run, 2);
    reveal_with_fuel(run_keeps_pc_in_range, 2);
}

/// The name `Debug` gives an execution error.
pub open spec fn execution_error_name(e: ExecutionError) -> Seq<char> {
    match e {
        ExecutionError::InvalidRegister => "InvalidRegister"@,
        ExecutionError::OutOfGas => "OutOfGas"@,
        ExecutionError::ExecutionReverted => "ExecutionReverted"@,
        ExecutionError::UnknownInstruction => "UnknownInstruction"@,
    }
}

fn execution_error_text(e: ExecutionError) -> (s: String)
    ensures
        s@ == execution_error_name(e),
{
    match e {
        ExecutionError::InvalidRegister => String::from_str("InvalidRegister"),
        ExecutionError::OutOfGas => String::from_str("OutOfGas"),
        ExecutionError::ExecutionReverted => String::from_str("ExecutionReverted"),
        ExecutionError::UnknownInstruction => String::from_str("UnknownInstruction"),
    }
}

/// Checks the execution engine by running a fresh one on a one-instruction
/// addition.
#[derive(Debug)]
pub struct ExecutionHealthCheck {
    engine: ExecutionEngine,
}

impl ExecutionHealthCheck {
    pub fn new(engine: ExecutionEngine) -> (c: Self)
        ensures
            c.engine() == engine,
    {
        ExecutionHealthCheck { engine }
    }

    /// The engine the check was made for.
    pub closed spec fn engine(&self) -> ExecutionEngine {
        self.engine
    }

    /// Runs the probe at time `now`: 10 + 20 must give 30 without error. The
    /// engine always passes, so the result says it is healthy.
    pub fn check_at(&self, now: u64) -> (r: HealthCheckResult)
        ensures
            reports(r, "execution_engine"@, HealthStatus::Healthy, "Execution engine operational"@, now),
    {
        let mut test_engine = ExecutionEngine::new(1000000);
        test_engine.context.registers[1] = 10;
        test_engine.context.registers[2] = 20;
        let mut program: Vec<OpCode> = Vec::new();
        program.push(OpCode::ADD(0, 1, 2));
        proof {
            lemma_probe_run();
            assert(test_engine.context@.registers =~= probe_context().registers);
            assert(test_engine.context@ == probe_context());
            assert(program@ =~= probe_program());
        }
        match test_engine.execute_program(program) {
            Ok(result) => {
                if result.success && test_engine.context.registers[0] == 30 {
                    result_at("execution_engine", HealthStatus::Healthy, String::from_str("Execution engine operational"), now)
                } else {
                    result_at("execution_engine", HealthStatus::Critical, String::from_str("Execution engine failed test"), now)
                }
            },
            Err(e) => {
                let mut message = String::from_str("Execution engine error: ");
                let name = execution_error_text(e);
                push_str(&mut message, name.as_str());
                result_at("execution_engine", HealthStatus::Critical, message, now)
            },
        }
    }
}

/// Checks the state store by writing and reading back a value in a copy of
/// it.
#[derive(Debug)]
pub struct StateHealthCheck {
    store: StateStore,
}

impl StateHealthCheck {
    pub fn new(store: StateStore) -> (c: Self)
        ensures
            c.store()@ == store@,
    {
        StateHealthCheck { store }
    }

    /// The store the check was made for.
    pub closed spec fn store(&self) -> StateStore {
        self.store
    }

    /// Writes "test_value" under "health_check_test" into a copy of the store
    /// at time `now` and reads it back. A store reads back what was written,
    /// so the result says it is healthy.
    pub fn check_at(&self, now: u64) -> (r: HealthCheckResult)
        requires
            version_fits(self.store()@, "health_check_test"@),
        ensures
            reports(r, "state_store"@, HealthStatus::Healthy, "State store operational"@, now),
    {
        let mut store = self.store.clone_for_validation();
        let test_key = String::from_str("health_check_test");
        let test_value = String::from_str("test_value");
        let ghost key = test_key@;
        store.put_at(test_key, test_value, now);
        match store.get("health_check_test") {
            Some(retrieved) => {
                if crate::text::str_eq(retrieved.value.as_str(), "test_value") {
                    result_at("state_store", HealthStatus::Healthy, String::from_str("State store operational"), now)
                } else {
                    result_at("state_store", HealthStatus::Critical, String::from_str("State store read/write mismatch"), now)
                }
            },
            None => result_at("state_store", HealthStatus::Critical, String::from_str("State store failed to retrieve value"), now),
        }
    }
}

/// Checks the consensus engine by validating a trivial execution result.
#[derive(Debug)]
pub struct ConsensusHealthCheck {
    engine: ConsensusEngine,
}

impl ConsensusHealthCheck {
    pub fn new(engine: ConsensusEngine) -> (c: Self)
        ensures
            c.engine() == engine,
    {
        ConsensusHealthCheck { engine }
    }

    /// The engine the check was made for.
    pub closed spec fn engine(&self) -> ConsensusEngine {
        self.engine
    }

    /// Validates a result with no state changes at time `now`. Validation of
    /// such a result always succeeds, so the result says the engine is
    /// healthy.
    pub fn check_at(&self, now: u64) -> (r: HealthCheckResult)
        ensures
            reports(r, "consensus_engine"@, HealthStatus::Healthy, "Consensus engine operational"@, now),
    {
        let mut trace: Vec<OpCode> = Vec::new();
        trace.push(OpCode::RETURN);
        let adu = AtomicDecisionUnit {
            input_state_hash: String::from_str("test_input"),
            rule_id: String::from_str("test_rule"),
            execution_trace: trace,
            output_proof: String::from_str("test_proof"),
            accountability_anchor: String::from_str("test_anchor"),
            risk_stake: 100,
        };
        let result = ExecutionResult {
            gas_used: 100,
            success: true,
            state_diffs: Vec::new(),
            trace_hash: String::from_str("test_trace"),
        };
        proof {
            assert(crate::execution::changes_view(result.state_diffs@) =~= Seq::<crate::execution::StateChangeView>::empty());
        }
        match self.engine.validate_execution_result(&adu, &result) {
            Ok(valid) => {
                if valid {
                    result_at("consensus_engine", HealthStatus::Healthy, String::from_str("Consensus engine operational"), now)
                } else {
                    result_at("consensus_engine", HealthStatus::Warning, String::from_str("Consensus validation returned false"), now)
                }
            },
            Err(e) => {
                let mut message = String::from_str("Consensus engine error: ");
                let text = e.to_string();
                push_str(&mut message, text.as_str());
                result_at("consensus_engine", HealthStatus::Critical, message, now)
            },
        }
    }
}

/// Checks the governance engine by counting its active rules.
#[derive(Debug)]
pub struct GovernanceHealthCheck {
    engine: GovernanceEngine,
}

impl GovernanceHealthCheck {
    pub fn new(engine: GovernanceEngine) -> (c: Self)
        ensures
            c.engine() == engine,
    {
        GovernanceHealthCheck { engine }
    }

    /// The engine the check was made for.
    pub closed spec fn engine(&self) -> GovernanceEngine {
        self.engine
    }

    /// Counts the active constitutional rules at time `now`: healthy when
    /// there is one or more, a warning when there is none; the message gives
    /// the count.
    pub fn check_at(&self, now: u64) -> (r: HealthCheckResult)
        ensures
            ({
                let n = active_rules(self.engine().constitution@).len();
                reports(
                    r,
                    "governance_engine"@,
                    if n == 0 { HealthStatus::Warning } else { HealthStatus::Healthy },
                    "Governance engine operational, "@ + decimal(n) + " active rules"@,
                    now,
                )
            }),
    {
        let rules = self.engine.get_active_constitutional_rules();
        let n = rules.len();
        proof {
            assert(rules@.map_values(|x: &crate::governance::ConstitutionalRule| *x).len() == rules@.len());
        }
        let status = if n == 0 {
            HealthStatus::Warning
        } else {
            HealthStatus::Healthy
        };
        let mut message = String::from_str("Governance engine operational, ");
        push_decimal(&mut message, n as u64);
        push_str(&mut message, " active rules");
        result_at("governance_engine", status, message, now)
    }
}

// ---------------------------------------------------------------------------
// The report.
// ---------------------------------------------------------------------------

/// The overall status, error count and warnings of a report.
pub struct Summary {
    pub overall: HealthStatus,
    pub errors: int,
    pub warnings: Seq<Seq<char>>,
}

/// The summary after one more result: a critical result makes the whole
/// critical and counts an error; a warning makes a non-critical whole a
/// warning and is listed as "component: message"; a healthy result turns an
/// unknown whole healthy.
pub open spec fn summary_step(s: Summary, r: HealthCheckResult) -> Summary {
    if r.status == HealthStatus::Critical {
        Summary { overall: HealthStatus::Critical, errors: s.errors + 1, ..s }
    } else if r.status == HealthStatus::Warning {
        Summary {
            overall: if s.overall == HealthStatus::Critical { HealthStatus::Critical } else { HealthStatus::Warning },
            warnings: s.warnings.push(r.component@ + ": "@ + r.message@),
            ..s
        }
    } else if r.status == HealthStatus::Healthy && s.overall == HealthStatus::Unknown {
        Summary { overall: HealthStatus::Healthy, ..s }
    } else {
        s
    }
}

/// The summary after `results`, in order.
pub open spec fn summarize(s: Summary, results: Seq<HealthCheckResult>) -> Summary
    decreases results.len(),
{
    if results.len() == 0 {
        s
    } else {
        summary_step(summarize(s, results.drop_last()), results.last())
    }
}

/// The status each component has last reported.
pub open spec fn component_statuses(m: Map<Seq<char>, HealthStatus>, results: Seq<HealthCheckResult>) -> Map<Seq<char>, HealthStatus>
    decreases results.len(),
{
    if results.len() == 0 {
        m
    } else {
        component_statuses(m, results.drop_last()).insert(results.last().component@, results.last().status)
    }
}

proof fn lemma_errors_bound(s: Summary, results: Seq<HealthCheckResult>)
    ensures
        s.errors <= summarize(s, results).errors <= s.errors + results.len(),
    decreases results.len(),
{
    if results.len() > 0 {
        lemma_errors_bound(s, results.drop_last());
    }
}

impl HealthReport {
    /// The report's summary.
    pub open spec fn summary(&self) -> Summary {
        Summary { overall: self.overall_status, errors: self.error_count as int, warnings: self.warnings@.map_values(|w: String| w@) }
    }

    /// Records `results` in order: each component's status, and the summary
    /// (see `summary_step`).
    pub fn record_results(&mut self, results: &Vec<HealthCheckResult>)
        requires
            old(self).error_count + results@.len() <= u64::MAX,
        ensures
            final(self).summary() == summarize(old(self).summary(), results@),
            final(self).component_status@ == component_statuses(old(self).component_status@, results@),
            final(self).timestamp == old(self).timestamp,
            final(self).uptime == old(self).uptime,
    {
        let mut i: usize = 0;
        while i < results.len()
            invariant
                i <= results@.len(),
                old(self).error_count + results@.len() <= u64::MAX,
                self.summary() == summarize(old(self).summary(), results@.take(i as int)),
                self.component_status@ == component_statuses(old(self).component_status@, results@.take(i as int)),
                self.timestamp == old(self).timestamp,
                self.uptime == old(self).uptime,
            decreases results@.len() - i,
        {
            let r = &results[i];
            assert(results@.take(i + 1).drop_last() =~= results@.take(i as int));
            proof {
                lemma_errors_bound(old(self).summary(), results@.take(i as int));
            }
            self.component_status.insert(r.component.clone(), r.status);
            let ghost before = self.warnings@;
            if r.status == HealthStatus::Critical {
                self.overall_status = HealthStatus::Critical;
                self.error_count = self.error_count + 1;
            } else if r.status == HealthStatus::Warning {
                if self.overall_status != HealthStatus::Critical {
                    self.overall_status = HealthStatus::Warning;
                }
                let mut w = r.component.clone();
                push_str(&mut w, ": ");
                push_str(&mut w, r.message.as_str());
                self.warnings.push(w);
                assert(self.warnings@.map_values(|x: String| x@) =~= before.map_values(|x: String| x@).push(
                    r.component@ + ": "@ + r.message@,
                ));
            } else if r.status == HealthStatus::Healthy && self.overall_status == HealthStatus::Unknown {
                self.overall_status = HealthStatus::Healthy;
            }
            i = i + 1;
        }
        assert(results@.take(i as int) =~= results@);
    }

    /// A report dated `now` built from `results` (see `record_results`).
    pub fn from_results_at(results: &Vec<HealthCheckResult>, now: u64) -> (r: Self)
        requires
            results@.len() <= u64::MAX,
        ensures
            r.timestamp == now,
            r.uptime == 0,
            r.summary() == summarize(
                Summary { overall: HealthStatus::Unknown, errors: 0, warnings: Seq::empty() },
                results@,
            ),
            r.component_status@ == component_statuses(Map::empty(), results@),
    {
        let mut report = HealthReport::new_at(now);
        assert(report.warnings@.map_values(|x: String| x@) =~= Seq::<Seq<char>>::empty());
        report.record_results(results);
        report
    }
}

} // verus!
