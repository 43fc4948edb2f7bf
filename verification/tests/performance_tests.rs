use civitasos::monitoring::performance::{aggregate_counters, window_start, MetricCounters};

fn sample(timestamp: u64, k: u64) -> MetricCounters {
    MetricCounters {
        timestamp,
        memory_usage: k,
        disk_usage: 2 * k,
        network_in: 3 * k,
        network_out: 4 * k,
        active_connections: k as usize,
        execution_count: 5 * k,
        state_operations: 6 * k,
        consensus_rounds: 7 * k,
        governance_proposals: 8 * k,
    }
}

#[test]
fn performance_window_totals() {
    let samples = vec![sample(100, 1), sample(200, 10), sample(300, 100)];
    let cutoff = window_start(400, 4);
    assert_eq!(cutoff, 160);
    let t = aggregate_counters(&samples, cutoff).expect("two samples in the window");
    assert_eq!(t.timestamp, 160);
    assert_eq!(t.memory_usage, 110);
    assert_eq!(t.disk_usage, 220);
    assert_eq!(t.network_in, 330);
    assert_eq!(t.network_out, 440);
    assert_eq!(t.active_connections, 110);
    assert_eq!(t.execution_count, 550);
    assert_eq!(t.state_operations, 660);
    assert_eq!(t.consensus_rounds, 770);
    assert_eq!(t.governance_proposals, 880);
    // A sample exactly at the cut-off counts.
    assert_eq!(aggregate_counters(&samples, 300).unwrap().memory_usage, 100);
    assert_eq!(aggregate_counters(&samples, 301), None);
    assert_eq!(aggregate_counters(&vec![], 0), None);
}
