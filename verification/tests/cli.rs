use diffmetrik::cli::{next_series, report_line, selected, Metric, Opt};
use diffmetrik::metrics::cpu::{load_averages, load_fields, CPUMetrics, CpuError};
use diffmetrik::metrics::network::NetworkMetrics;
use diffmetrik::metrics::{Metrics, TimeTaggedMetric};
use diffmetrik::time::Duration;

fn sample(secs: u64, net_in: u64, net_out: u64) -> TimeTaggedMetric {
    TimeTaggedMetric {
        time: Duration::new(secs, 0),
        network: NetworkMetrics { total_ibytes: net_in, total_obytes: net_out },
        cpu: CPUMetrics { m1: 0, m5: 0, m15: 0 },
    }
}

fn times(m: &Metrics) -> Vec<u64> {
    m.samples().iter().map(|s| s.time.as_secs()).collect()
}

#[test]
fn options_by_default() {
    let opt = Opt::new(Metric::Upload);
    assert_eq!(opt.file_name, "diffmetrik.json");
    assert_eq!(opt.metric, Metric::Upload);
    assert!(!opt.daemon);
    assert!(!opt.debug);
}

#[test]
fn lines_that_are_printed() {
    assert_eq!(report_line(Metric::Download, Some("1.23 MiB/s")), "D: 1.23 MiB/s");
    assert_eq!(report_line(Metric::Upload, Some("200.00 B/s")), "U: 200.00 B/s");
    assert_eq!(report_line(Metric::Download, None), "Not enough data");
    assert_eq!(report_line(Metric::Upload, None), "Not enough data");
}

#[test]
fn rate_that_was_asked_for() {
    let m = Metrics::from_samples(vec![sample(10, 2000, 700), sample(5, 1000, 200)]);
    let rate = m.get_rate().unwrap();
    assert_eq!(selected(Metric::Download, &rate), (1000, Duration::new(5, 0)));
    assert_eq!(selected(Metric::Upload, &rate), (500, Duration::new(5, 0)));
}

#[test]
fn series_of_an_invocation() {
    let stored = || Metrics::from_samples(vec![sample(30, 0, 0), sample(20, 0, 0), sample(10, 0, 0)]);
    let new = || Metrics::new(sample(40, 0, 0));
    assert_eq!(times(&next_series(Some(stored()), Some(new()))), vec![40, 30, 20]);
    assert_eq!(times(&next_series(Some(stored()), None)), vec![30, 20, 10]);
    assert_eq!(times(&next_series(None, Some(new()))), vec![40]);
    assert_eq!(next_series(None, None).len(), 0);
}

#[test]
fn first_run_has_not_enough_data() {
    let series = next_series(None, Some(Metrics::new(sample(40, 1, 1))));
    assert!(series.get_rate().is_none());
    let series = next_series(Some(series), Some(Metrics::new(sample(45, 501, 1))));
    let rate = series.get_rate().unwrap();
    assert_eq!(rate.network.ibytes_per_sec(), Some(100));
}

#[test]
fn load_averages_are_the_first_three_fields() {
    assert_eq!(load_fields("0.52 0.58 0.59 1/467 12345\n"), vec!["0.52", "0.58", "0.59"]);
    assert_eq!(load_fields("0.52 0.58"), vec!["0.52", "0.58"]);
    assert_eq!(load_fields(""), vec![""]);
    assert_eq!(load_fields(" 1  2"), vec!["", "1", ""]);
    assert_eq!(load_fields("1\t2 3\n"), vec!["1\t2", "3\n"]);
    assert_eq!(load_fields("a b c"), vec!["a", "b", "c"]);
    assert_eq!(load_fields("a b "), vec!["a", "b", ""]);
    for text in ["0.52 0.58 0.59 1/467 12345\n", "", " 1  2", "a b ", "x"] {
        let expected: Vec<&str> = text.split(' ').take(3).collect();
        assert_eq!(load_fields(text), expected);
    }
}

#[test]
fn load_averages_are_three_or_none() {
    let bits: Vec<u32> = [0.52f32, 0.58, 0.59, 7.0].iter().map(|f| f.to_bits()).collect();
    let m = load_averages(&bits).ok().unwrap();
    assert_eq!(f32::from_bits(m.m1), 0.52);
    assert_eq!(f32::from_bits(m.m5), 0.58);
    assert_eq!(f32::from_bits(m.m15), 0.59);
    assert_eq!(load_averages(&vec![1, 2, 3]).ok(), Some(CPUMetrics { m1: 1, m5: 2, m15: 3 }));
    for few in [vec![], vec![1], vec![1, 2]] {
        match load_averages(&few) {
            Err(CpuError::GetMetrics(why)) => assert_eq!(why, "fewer than three load averages"),
            _ => panic!("too few load averages were taken"),
        }
    }
}
