//! Kinds of metrics and their names in the Prometheus text format. Metric
//! values are fractions and are kept by the caller.
use vstd::prelude::*;

verus! {

/// The kind of a metric.
#[derive(Debug, Clone, Copy, PartialEq, Eq, Structural)]
pub enum MetricType {
    Counter,
    Gauge,
    Histogram,
    Summary,
}

impl MetricType {
    /// The name of the kind in a Prometheus `# TYPE` line: "counter",
    /// "gauge", "histogram" or "summary".
    pub fn prometheus_name(&self) -> (r: String)
        ensures
            r@ == match *self {
                MetricType::Counter => "counter"@,
                MetricType::Gauge => "gauge"@,
                MetricType::Histogram => "histogram"@,
                MetricType::Summary => "summary"@,
            },
    {
        match self {
            MetricType::Counter => String::from_str("counter"),
            MetricType::Gauge => String::from_str("gauge"),
            MetricType::Histogram => String::from_str("histogram"),
            MetricType::Summary => String::from_str("summary"),
        }
    }
}

} // verus!
