//! What one invocation is asked for, what it makes of the stored series and
//! the new sample, and the line that it prints.

use crate::metrics::{is_merge_of, MetricRate, Metrics, TimeTaggedMetric};
use crate::time::Duration;
use vstd::prelude::*;
use vstd::string::*;

verus! {

/// The rate that the user asked for.
#[derive(Clone, Copy, Debug, PartialEq, Eq, Structural)]
pub enum Metric {
    Download,
    Upload,
}

/// The options of one invocation.
#[derive(Debug)]
pub struct Opt {
    /// The name of the store's file.
    pub file_name: String,
    /// The rate to print.
    pub metric: Metric,
    /// Kept for later use; it changes nothing.
    pub daemon: bool,
    /// Whether the store's caller reports what it does.
    pub debug: bool,
}

/// The name of the store's file where the user gave none.
pub open spec fn default_file_name() -> Seq<char> {
    "diffmetrik.json"@
}

/// What is printed where the series yields no rate.
pub open spec fn not_enough_data() -> Seq<char> {
    "Not enough data"@
}

/// What stands before a rate of the kind `metric`.
pub open spec fn label(metric: Metric) -> Seq<char> {
    match metric {
        Metric::Download => "D: "@,
        Metric::Upload => "U: "@,
    }
}

impl Opt {
    /// The options where the user gave only the rate to print.
    pub fn new(metric: Metric) -> (opt: Opt)
        ensures
            opt.file_name@ == default_file_name(),
            opt.metric == metric,
            !opt.daemon,
            !opt.debug,
    {
        Opt { file_name: String::from_str("diffmetrik.json"), metric, daemon: false, debug: false }
    }
}

/// The series that an invocation stores and takes its rate from: what was
/// stored before, merged with the new sample. Where one of the two is
/// missing, the other stands alone; where both are, the series is empty.
pub fn next_series(previous: Option<Metrics>, sampled: Option<Metrics>) -> (r: Metrics)
    ensures
        match (previous, sampled) {
            (Some(p), Some(s)) => is_merge_of(r@, p@ + s@) && r.wf(),
            (Some(p), None) => r@ == p@,
            (None, Some(s)) => r@ == s@,
            (None, None) => r@ == Seq::<TimeTaggedMetric>::empty(),
        },
{
    match (previous, sampled) {
        (Some(p), Some(s)) => p.merge(s),
        (Some(p), None) => p,
        (None, Some(s)) => s,
        (None, None) => Metrics::from_samples(Vec::new()),
    }
}

/// The change of the counter that `metric` names, and the span over which it
/// came about.
pub fn selected(metric: Metric, rate: &MetricRate) -> (r: (i128, Duration))
    ensures
        r.0 == match metric {
            Metric::Download => rate.network.spec_ibytes(),
            Metric::Upload => rate.network.spec_obytes(),
        },
        r.1 == rate.network.spec_dtime(),
{
    match metric {
        Metric::Download => (rate.network.ibytes(), rate.network.dtime()),
        Metric::Upload => (rate.network.obytes(), rate.network.dtime()),
    }
}

/// The line that the invocation prints: the rate, as `rate` writes it, behind
/// its label, or the notice that the data do not suffice.
pub fn report_line(metric: Metric, rate: Option<&str>) -> (line: String)
    ensures
        line@ == match rate {
            Some(text) => label(metric) + text@,
            None => not_enough_data(),
        },
{
    match rate {
        Some(text) => {
            let mut line = match metric {
                Metric::Download => String::from_str("D: "),
                Metric::Upload => String::from_str("U: "),
            };
            line.append(text);
            line
        },
        None => String::from_str("Not enough data"),
    }
}

} // verus!
