//! Timestamped samples of the host's counters and the bounded series of them.

pub mod cpu;
pub mod errors;
pub mod network;

use crate::metrics::cpu::{CPUMetrics, CpuError};
use crate::metrics::network::{NetworkError, NetworkMetricRate, NetworkMetrics};
use crate::time::Duration;
use vstd::prelude::*;
use vstd::seq_lib::{lemma_multiset_commutative, to_multiset_build, to_multiset_insert};

verus! {

/// The most samples that a series keeps.
pub const MAX_SAMPLES: usize = 3;

/// The shortest span, in nanoseconds, that a rate must be taken over: a rate
/// needs more than this between its two samples.
pub const MIN_RATE_NANOS: u64 = 1_000_000_000;

/// Why no sample could be taken.
#[derive(Debug)]
pub enum MetricError {
    NetworkError(NetworkError),
    CpuError(CpuError),
}

impl MetricError {
    /// The text of the error as it is shown to the user: that of the error
    /// within.
    pub fn to_string(&self) -> (s: String)
        ensures
            s@ == match *self {
                MetricError::NetworkError(NetworkError::IO) => "IO"@,
                MetricError::NetworkError(NetworkError::CtlError) => "CtlError"@,
                MetricError::NetworkError(NetworkError::GetMetrics { message }) => message@,
                MetricError::NetworkError(NetworkError::ParseError) => "ParseError"@,
                MetricError::CpuError(CpuError::CtlError) => "CtlError"@,
                MetricError::CpuError(CpuError::GetMetrics(m)) => m@,
                MetricError::CpuError(CpuError::IO(m)) => m@,
                MetricError::CpuError(CpuError::ParseError(m)) => m@,
            },
    {
        match self {
            MetricError::NetworkError(e) => e.to_string(),
            MetricError::CpuError(e) => e.to_string(),
        }
    }
}

/// One sample of the counters and the time at which it was taken.
#[derive(Clone, Copy, Debug, PartialEq, Eq, Structural)]
pub struct TimeTaggedMetric {
    pub time: Duration,
    pub network: NetworkMetrics,
    pub cpu: CPUMetrics,
}

/// What a series yields once it holds two samples far enough apart: the
/// change of the network counters and the newest load averages.
#[derive(Clone, Copy, Debug, PartialEq, Eq, Structural)]
pub struct MetricRate {
    pub network: NetworkMetricRate,
    pub cpu: CPUMetrics,
}

/// A series of samples. A series that `merge` made holds at most
/// `MAX_SAMPLES` of them, the newest first.
#[derive(Debug)]
pub struct Metrics {
    metrics: Vec<TimeTaggedMetric>,
}

/// The time of a sample in nanoseconds.
pub open spec fn nanos_of(m: TimeTaggedMetric) -> nat {
    m.time.total_nanos()
}

/// Whether no sample of `s` is newer than one before it.
pub open spec fn newest_first(s: Seq<TimeTaggedMetric>) -> bool {
    forall|i: int, j: int| 0 <= i <= j < s.len() ==> nanos_of(s[i]) >= nanos_of(s[j])
}

/// Whether `ordered` holds the samples of `all`, each as often as `all` does,
/// the newest first.
pub open spec fn is_ordering_of(ordered: Seq<TimeTaggedMetric>, all: Seq<TimeTaggedMetric>) -> bool {
    ordered.to_multiset() == all.to_multiset() && newest_first(ordered)
}

/// `s` cut down to its first `MAX_SAMPLES` samples.
pub open spec fn bounded(s: Seq<TimeTaggedMetric>) -> Seq<TimeTaggedMetric> {
    if s.len() <= MAX_SAMPLES {
        s
    } else {
        s.take(MAX_SAMPLES as int)
    }
}

/// Whether `kept` is what merging leaves of `all`: the first samples of `all`
/// put in order, the newest first. Among samples of one time any order will do.
pub open spec fn is_merge_of(kept: Seq<TimeTaggedMetric>, all: Seq<TimeTaggedMetric>) -> bool {
    exists|ordered: Seq<TimeTaggedMetric>| #[trigger]
        is_ordering_of(ordered, all) && kept == bounded(ordered)
}

/// Whether a series holds what a rate needs: two samples or more, the first
/// of them more than `MIN_RATE_NANOS` later than the last.
pub open spec fn rate_defined(s: Seq<TimeTaggedMetric>) -> bool {
    s.len() >= 2 && nanos_of(s.first()) > nanos_of(s.last()) + MIN_RATE_NANOS
}

/// Puts `m` into `sorted`, behind every sample that is as new or newer.
fn insert_by_time(sorted: &mut Vec<TimeTaggedMetric>, m: TimeTaggedMetric)
    requires
        newest_first(old(sorted)@),
    ensures
        newest_first(final(sorted)@),
        final(sorted)@.to_multiset() == old(sorted)@.to_multiset().insert(m),
        final(sorted)@.len() == old(sorted)@.len() + 1,
{
    let mut at: usize = 0;
    while at < sorted.len() && sorted[at].time.at_least(&m.time)
        invariant
            at <= sorted.len(),
            sorted@ == old(sorted)@,
            forall|i: int| 0 <= i < at ==> nanos_of(sorted@[i]) >= nanos_of(m),
        decreases sorted.len() - at,
    {
        at += 1;
    }
    proof {
        to_multiset_insert(sorted@, at as int, m);
        let after = sorted@.insert(at as int, m);
        assert forall|i: int, j: int| 0 <= i <= j < after.len() implies nanos_of(after[i])
            >= nanos_of(after[j]) by {
            if i < at && j > at {
                assert(after[j] == sorted@[j - 1]);
            }
        }
    }
    sorted.insert(at, m);
}

impl View for Metrics {
    type V = Seq<TimeTaggedMetric>;

    closed spec fn view(&self) -> Seq<TimeTaggedMetric> {
        self.metrics@
    }
}

impl Metrics {
    /// Whether the series is as `merge` leaves one: it holds `MAX_SAMPLES`
    /// samples at most, the newest first.
    pub open spec fn wf(&self) -> bool {
        self@.len() <= MAX_SAMPLES && newest_first(self@)
    }

    /// A series of one sample.
    pub fn new(metric: TimeTaggedMetric) -> (r: Metrics)
        ensures
            r@ == seq![metric],
            r.wf(),
    {
        let mut metrics: Vec<TimeTaggedMetric> = Vec::new();
        metrics.push(metric);
        Metrics { metrics }
    }

    /// A series of the given samples, as they come.
    pub fn from_samples(metrics: Vec<TimeTaggedMetric>) -> (r: Metrics)
        ensures
            r@ == metrics@,
    {
        Metrics { metrics }
    }

    /// The samples of the series, in its order.
    pub fn samples(&self) -> (v: &Vec<TimeTaggedMetric>)
        ensures
            v@ == self@,
    {
        &self.metrics
    }

    /// How many samples the series holds.
    pub fn len(&self) -> (n: usize)
        ensures
            n == self@.len(),
    {
        self.metrics.len()
    }

    /// Puts the samples of two series together, the newest first, and keeps
    /// the first `MAX_SAMPLES` of them. A sample that both series hold is kept
    /// as two.
    pub fn merge(self, other: Metrics) -> (r: Metrics)
        ensures
            is_merge_of(r@, self@ + other@),
            r.wf(),
            r@.len() == if self@.len() + other@.len() <= MAX_SAMPLES {
                self@.len() + other@.len()
            } else {
                MAX_SAMPLES as nat
            },
    {
        let mut sorted: Vec<TimeTaggedMetric> = Vec::new();
        let mut i: usize = 0;
        proof {
            assert(self@.take(0) == sorted@);
        }
        while i < self.metrics.len()
            invariant
                i <= self.metrics.len(),
                newest_first(sorted@),
                sorted@.to_multiset() == self@.take(i as int).to_multiset(),
                sorted@.len() == i,
            decreases self.metrics.len() - i,
        {
            proof {
                assert(self@.take(i + 1) == self@.take(i as int).push(self@[i as int]));
                to_multiset_build(self@.take(i as int), self@[i as int]);
            }
            insert_by_time(&mut sorted, self.metrics[i]);
            i += 1;
        }
        proof {
            assert(self@.take(i as int) == self@);
            assert(self@ + other@.take(0) == self@);
        }
        let mut j: usize = 0;
        while j < other.metrics.len()
            invariant
                j <= other.metrics.len(),
                newest_first(sorted@),
                sorted@.to_multiset() == (self@ + other@.take(j as int)).to_multiset(),
                sorted@.len() == self@.len() + j,
            decreases other.metrics.len() - j,
        {
            proof {
                assert(self@ + other@.take(j + 1) == (self@ + other@.take(j as int)).push(
                    other@[j as int],
                ));
                to_multiset_build(self@ + other@.take(j as int), other@[j as int]);
            }
            insert_by_time(&mut sorted, other.metrics[j]);
            j += 1;
        }
        let ghost ordered = sorted@;
        proof {
            assert(other@.take(j as int) == other@);
            assert(is_ordering_of(ordered, self@ + other@));
        }
        sorted.truncate(MAX_SAMPLES);
        proof {
            assert(sorted@ == bounded(ordered));
        }
        Metrics { metrics: sorted }
    }

    /// The change between the last sample of the series and its first, which
    /// in a merged series are the oldest and the newest, with the load
    /// averages of the first. There is none where `rate_defined` fails.
    pub fn get_rate(&self) -> (r: Option<MetricRate>)
        ensures
            r is Some <==> rate_defined(self@),
            r matches Some(rate) ==> {
                &&& rate.network.spec_ibytes() == self@.first().network.total_ibytes
                    - self@.last().network.total_ibytes
                &&& rate.network.spec_obytes() == self@.first().network.total_obytes
                    - self@.last().network.total_obytes
                &&& rate.network.spec_dtime().total_nanos() == nanos_of(self@.first()) - nanos_of(
                    self@.last(),
                )
                &&& rate.cpu == self@.first().cpu
            },
    {
        let len = self.metrics.len();
        if len < 2 {
            return None;
        }
        let m1 = self.metrics[0];
        let m2 = self.metrics[len - 1];
        match m1.time.checked_sub(&m2.time) {
            Some(dtime) => {
                if dtime.as_nanos() > MIN_RATE_NANOS as u128 {
                    Some(MetricRate { network: m1.network.diff(&m2.network, &dtime), cpu: m1.cpu })
                } else {
                    None
                }
            },
            None => None,
        }
    }
}

/// Makes a series of one sample from what the sources gave at `time`. Where
/// both sources failed, the network's error is the one reported.
pub fn get_metrics(
    time: Duration,
    network: Result<NetworkMetrics, NetworkError>,
    cpu: Result<CPUMetrics, CpuError>,
) -> (r: Result<Metrics, MetricError>)
    ensures
        match (network, cpu) {
            (Ok(n), Ok(c)) => r matches Ok(m) && m@ == seq![
                TimeTaggedMetric { time, network: n, cpu: c },
            ],
            (Err(e), _) => r matches Err(MetricError::NetworkError(f)) && f == e,
            (Ok(_), Err(e)) => r matches Err(MetricError::CpuError(f)) && f == e,
        },
{
    let network = match network {
        Ok(n) => n,
        Err(e) => {
            return Err(MetricError::NetworkError(e));
        },
    };
    let cpu = match cpu {
        Ok(c) => c,
        Err(e) => {
            return Err(MetricError::CpuError(e));
        },
    };
    Ok(Metrics::new(TimeTaggedMetric { time, network, cpu }))
}

/// What merging leaves is bounded and in order, whatever went in.
pub proof fn lemma_merge_is_bounded_and_ordered(
    kept: Seq<TimeTaggedMetric>,
    all: Seq<TimeTaggedMetric>,
)
    requires
        is_merge_of(kept, all),
    ensures
        kept.len() <= MAX_SAMPLES,
        kept.len() == all.len() || (kept.len() == MAX_SAMPLES && all.len() > MAX_SAMPLES),
        newest_first(kept),
{
    let ordered = choose|ordered: Seq<TimeTaggedMetric>| #[trigger]
        is_ordering_of(ordered, all) && kept == bounded(ordered);
    ordered.to_multiset_ensures();
    all.to_multiset_ensures();
}

/// What merging leaves are the newest samples of what went in: each sample
/// is kept no more often than it went in, and whatever went in more often
/// than it is kept is no newer than any sample that is kept.
pub proof fn lemma_merge_keeps_newest(
    kept: Seq<TimeTaggedMetric>,
    all: Seq<TimeTaggedMetric>,
    m: TimeTaggedMetric,
)
    requires
        is_merge_of(kept, all),
    ensures
        kept.to_multiset().count(m) <= all.to_multiset().count(m),
        kept.to_multiset().count(m) < all.to_multiset().count(m) ==> forall|i: int|
            0 <= i < kept.len() ==> nanos_of(#[trigger] kept[i]) >= nanos_of(m),
{
    let ordered = choose|ordered: Seq<TimeTaggedMetric>| #[trigger]
        is_ordering_of(ordered, all) && kept == bounded(ordered);
    if ordered.len() > MAX_SAMPLES {
        let rest = ordered.skip(MAX_SAMPLES as int);
        assert(kept + rest == ordered);
        lemma_multiset_commutative(kept, rest);
        if kept.to_multiset().count(m) < all.to_multiset().count(m) {
            assert(rest.to_multiset().count(m) > 0);
            rest.to_multiset_ensures();
            assert(rest.contains(m));
            let j = choose|j: int| 0 <= j < rest.len() && rest[j] == m;
            assert(ordered[j + MAX_SAMPLES] == m);
            assert forall|i: int| 0 <= i < kept.len() implies nanos_of(#[trigger] kept[i])
                >= nanos_of(m) by {
                assert(kept[i] == ordered[i]);
            }
        }
    }
}

} // verus!
