//! The counting part of performance metrics: integer counters sampled over
//! time and their totals over a recent window. CPU usage and execution
//! times are fractions and are aggregated by the caller.
use vstd::prelude::*;

verus! {

/// The integer counters of one metrics sample.
#[derive(Debug, Clone, Copy, PartialEq, Eq, Structural)]
pub struct MetricCounters {
    /// Seconds since the Unix epoch.
    pub timestamp: u64,
    /// Bytes.
    pub memory_usage: u64,
    /// Bytes.
    pub disk_usage: u64,
    /// Bytes received.
    pub network_in: u64,
    /// Bytes sent.
    pub network_out: u64,
    pub active_connections: usize,
    pub execution_count: u64,
    pub state_operations: u64,
    pub consensus_rounds: u64,
    pub governance_proposals: u64,
}

/// The samples taken at or after `cutoff`, in order.
pub open spec fn samples_since(s: Seq<MetricCounters>, cutoff: u64) -> Seq<MetricCounters>
    decreases s.len(),
{
    if s.len() == 0 {
        s
    } else if s.last().timestamp >= cutoff {
        samples_since(s.drop_last(), cutoff).push(s.last())
    } else {
        samples_since(s.drop_last(), cutoff)
    }
}

/// The sum of `f` over the samples.
pub open spec fn sum_of(s: Seq<MetricCounters>, f: spec_fn(MetricCounters) -> int) -> int
    decreases s.len(),
{
    if s.len() == 0 {
        0
    } else {
        sum_of(s.drop_last(), f) + f(s.last())
    }
}

/// The counters one by one.
pub open spec fn counter_fields() -> Seq<spec_fn(MetricCounters) -> int> {
    seq![
        |m: MetricCounters| m.memory_usage as int,
        |m: MetricCounters| m.disk_usage as int,
        |m: MetricCounters| m.network_in as int,
        |m: MetricCounters| m.network_out as int,
        |m: MetricCounters| m.execution_count as int,
        |m: MetricCounters| m.state_operations as int,
        |m: MetricCounters| m.consensus_rounds as int,
        |m: MetricCounters| m.governance_proposals as int,
    ]
}

/// Whether every counter's total over the samples fits its type.
pub open spec fn totals_fit(s: Seq<MetricCounters>) -> bool {
    &&& forall|k: int| 0 <= k < counter_fields().len() ==> sum_of(s, #[trigger] counter_fields()[k]) <= u64::MAX
    &&& sum_of(s, |m: MetricCounters| m.active_connections as int) <= usize::MAX
}

/// The totals of `s`, stamped `timestamp`.
pub open spec fn totals(s: Seq<MetricCounters>, timestamp: u64) -> MetricCounters {
    MetricCounters {
        timestamp,
        memory_usage: sum_of(s, counter_fields()[0]) as u64,
        disk_usage: sum_of(s, counter_fields()[1]) as u64,
        network_in: sum_of(s, counter_fields()[2]) as u64,
        network_out: sum_of(s, counter_fields()[3]) as u64,
        active_connections: sum_of(s, |m: MetricCounters| m.active_connections as int) as usize,
        execution_count: sum_of(s, counter_fields()[4]) as u64,
        state_operations: sum_of(s, counter_fields()[5]) as u64,
        consensus_rounds: sum_of(s, counter_fields()[6]) as u64,
        governance_proposals: sum_of(s, counter_fields()[7]) as u64,
    }
}

proof fn lemma_sum_prefix(s: Seq<MetricCounters>, f: spec_fn(MetricCounters) -> int, i: int)
    requires
        0 <= i <= s.len(),
        forall|m: MetricCounters| #[trigger] f(m) >= 0,
    ensures
        0 <= sum_of(s.take(i), f) <= sum_of(s, f),
    decreases s.len() - i,
{
    if i < s.len() {
        lemma_sum_prefix(s, f, i + 1);
        assert(s.take(i + 1).drop_last() =~= s.take(i));
    } else {
        assert(s.take(i) =~= s);
    }
    lemma_sum_nonneg(s.take(i), f);
}

proof fn lemma_sum_nonneg(s: Seq<MetricCounters>, f: spec_fn(MetricCounters) -> int)
    requires
        forall|m: MetricCounters| #[trigger] f(m) >= 0,
    ensures
        sum_of(s, f) >= 0,
    decreases s.len(),
{
    if s.len() > 0 {
        lemma_sum_nonneg(s.drop_last(), f);
    }
}

/// The cut-off for a window of the last `minutes` minutes before `now`.
pub fn window_start(now: u64, minutes: u64) -> (r: u64)
    requires
        minutes * 60 <= now,
    ensures
        r == now - minutes * 60,
{
    now - minutes * 60
}

/// Adds up the counters of the samples taken at or after `cutoff` (see
/// `samples_since`), stamped `cutoff`; none when there are no such samples.
pub fn aggregate_counters(samples: &Vec<MetricCounters>, cutoff: u64) -> (r: Option<MetricCounters>)
    requires
        totals_fit(samples_since(samples@, cutoff)),
    ensures
        samples_since(samples@, cutoff).len() == 0 ==> r is None,
        samples_since(samples@, cutoff).len() > 0 ==> r == Some(totals(samples_since(samples@, cutoff), cutoff)),
{
    let ghost all = samples_since(samples@, cutoff);
    let ghost fs = counter_fields();
    let mut acc = MetricCounters {
        timestamp: cutoff,
        memory_usage: 0,
        disk_usage: 0,
        network_in: 0,
        network_out: 0,
        active_connections: 0,
        execution_count: 0,
        state_operations: 0,
        consensus_rounds: 0,
        governance_proposals: 0,
    };
    let mut count: usize = 0;
    let mut i: usize = 0;
    while i < samples.len()
        invariant
            i <= samples@.len(),
            all == samples_since(samples@, cutoff),
            fs == counter_fields(),
            totals_fit(all),
            count == samples_since(samples@.take(i as int), cutoff).len(),
            acc == totals(samples_since(samples@.take(i as int), cutoff), cutoff),
            samples_since(samples@.take(i as int), cutoff) == all.take(count as int),
            count <= all.len(),
            count <= i,
        decreases samples@.len() - i,
    {
        let ghost pre = samples_since(samples@.take(i as int), cutoff);
        assert(samples@.take(i + 1).drop_last() =~= samples@.take(i as int));
        assert(samples@.take(i + 1).last() == samples@[i as int]);
        let m = samples[i];
        if m.timestamp >= cutoff {
            proof {
                lemma_since_prefix(samples@, cutoff, i + 1);
                let next = pre.push(m);
                assert(next == all.take(count + 1));
                assert(next.drop_last() =~= pre);
                assert forall|k: int| 0 <= k < 8 implies sum_of(next, #[trigger] fs[k]) <= u64::MAX by {
                    lemma_sum_prefix(all, fs[k], count + 1);
                }
                lemma_sum_prefix(all, |x: MetricCounters| x.active_connections as int, count + 1);
                assert(sum_of(next, fs[0]) == sum_of(pre, fs[0]) + m.memory_usage);
                assert(sum_of(next, fs[1]) == sum_of(pre, fs[1]) + m.disk_usage);
                assert(sum_of(next, fs[2]) == sum_of(pre, fs[2]) + m.network_in);
                assert(sum_of(next, fs[3]) == sum_of(pre, fs[3]) + m.network_out);
                assert(sum_of(next, fs[4]) == sum_of(pre, fs[4]) + m.execution_count);
                assert(sum_of(next, fs[5]) == sum_of(pre, fs[5]) + m.state_operations);
                assert(sum_of(next, fs[6]) == sum_of(pre, fs[6]) + m.consensus_rounds);
                assert(sum_of(next, fs[7]) == sum_of(pre, fs[7]) + m.governance_proposals);
                lemma_sum_nonneg(pre, fs[0]);
                lemma_sum_nonneg(pre, fs[1]);
                lemma_sum_nonneg(pre, fs[2]);
                lemma_sum_nonneg(pre, fs[3]);
                lemma_sum_nonneg(pre, fs[4]);
                lemma_sum_nonneg(pre, fs[5]);
                lemma_sum_nonneg(pre, fs[6]);
                lemma_sum_nonneg(pre, fs[7]);
                lemma_sum_nonneg(pre, |x: MetricCounters| x.active_connections as int);
            }
            acc.memory_usage = acc.memory_usage + m.memory_usage;
            acc.disk_usage = acc.disk_usage + m.disk_usage;
            acc.network_in = acc.network_in + m.network_in;
            acc.network_out = acc.network_out + m.network_out;
            acc.active_connections = acc.active_connections + m.active_connections;
            acc.execution_count = acc.execution_count + m.execution_count;
            acc.state_operations = acc.state_operations + m.state_operations;
            acc.consensus_rounds = acc.consensus_rounds + m.consensus_rounds;
            acc.governance_proposals = acc.governance_proposals + m.governance_proposals;
            count = count + 1;
        } else {
            proof {
                lemma_since_prefix(samples@, cutoff, i + 1);
            }
        }
        i = i + 1;
    }
    assert(samples@.take(i as int) =~= samples@);
    if count == 0 {
        None
    } else {
        Some(acc)
    }
}

proof fn lemma_since_prefix(s: Seq<MetricCounters>, cutoff: u64, i: int)
    requires
        0 <= i <= s.len(),
    ensures
        samples_since(s.take(i), cutoff) == samples_since(s, cutoff).take(samples_since(s.take(i), cutoff).len() as int),
        samples_since(s.take(i), cutoff).len() <= samples_since(s, cutoff).len(),
    decreases s.len() - i,
{
    if i < s.len() {
        lemma_since_prefix(s, cutoff, i + 1);
        assert(s.take(i + 1).drop_last() =~= s.take(i));
        let a = samples_since(s.take(i), cutoff);
        let b = samples_since(s.take(i + 1), cutoff);
        let all = samples_since(s, cutoff);
        if s[i].timestamp >= cutoff {
            assert(b == a.push(s[i]));
            assert(a =~= all.take(a.len() as int));
        } else {
            assert(b == a);
        }
    } else {
        assert(s.take(i) =~= s);
        assert(samples_since(s, cutoff).take(samples_since(s, cutoff).len() as int) =~= samples_since(s, cutoff));
    }
}

} // verus!
