use monoio::latency::{LatencyData, LatencyStat};

fn recorded(values: &[u64]) -> LatencyStat {
    let mut s = LatencyStat::with_max(10_000);
    for v in values {
        assert!(s.record_latency(*v));
    }
    s
}

#[test]
fn percentile_scenario() {
    let s = recorded(&[1, 2, 2, 3, 5, 100]);
    assert_eq!(s.count(), 6);
    assert_eq!(s.min(), Some(1));
    assert_eq!(s.max(), Some(100));
    assert_eq!(s.sum(), 113);
    assert_eq!(s.avg_hundredths(), Some(1883));
    assert_eq!(s.evaluation(&vec![50, 99]), Some(vec![2, 100]));
    assert_eq!(
        s.evaluation(&vec![0, 25, 50, 75, 90, 95, 99, 100]),
        Some(vec![1, 2, 2, 5, 100, 100, 100, 100])
    );
}

#[test]
fn percentile_above_hundred_gives_max() {
    let s = recorded(&[4, 8]);
    assert_eq!(s.evaluation(&vec![150]), Some(vec![8]));
}

#[test]
fn empty_state_reports_no_data() {
    let s = LatencyStat::with_max(100);
    assert_eq!(s.count(), 0);
    assert_eq!(s.min(), None);
    assert_eq!(s.max(), None);
    assert_eq!(s.avg_hundredths(), None);
    assert_eq!(s.evaluation(&vec![50]), None);
    let mut d = LatencyData::new();
    s.evaluate(&mut d);
    assert!(!d.has_data());
    assert_eq!(d.count, 0);
}

#[test]
fn reset_and_rerecord_matches_fresh() {
    let mut s = recorded(&[7, 9000, 3]);
    s.clear();
    assert_eq!(s.count(), 0);
    assert_eq!(s.min(), None);
    for v in [1u64, 2, 2, 3, 5, 100] {
        assert!(s.record_latency(v));
    }
    let fresh = recorded(&[1, 2, 2, 3, 5, 100]);
    let ps = vec![25, 50, 75, 90, 95, 99];
    assert_eq!(s.evaluation(&ps), fresh.evaluation(&ps));
    assert_eq!(s.min(), fresh.min());
    assert_eq!(s.max(), fresh.max());
    assert_eq!(s.avg_hundredths(), fresh.avg_hundredths());
    assert_eq!(s.count(), fresh.count());
}

#[test]
fn repeated_summary_is_identical() {
    let s = recorded(&[10, 20, 30, 30]);
    let ps = vec![25, 50, 75, 99];
    let a = s.evaluation(&ps);
    let b = s.evaluation(&ps);
    assert_eq!(a, b);
    assert_eq!(a, Some(vec![10, 20, 30, 30]));
    let mut d1 = LatencyData::with_percentiles(ps.clone());
    let mut d2 = LatencyData::with_percentiles(ps);
    s.evaluate(&mut d1);
    s.evaluate(&mut d1);
    s.evaluate(&mut d2);
    assert_eq!(d1.latencies, d2.latencies);
    assert_eq!((d1.min, d1.max, d1.avg_hundredths, d1.count), (d2.min, d2.max, d2.avg_hundredths, d2.count));
}

#[test]
fn evaluate_fills_default_summary() {
    let s = recorded(&[1, 2, 2, 3, 5, 100]);
    let mut d = LatencyData::new();
    assert_eq!(d.percentiles, vec![25, 50, 75, 90, 95, 99]);
    s.evaluate(&mut d);
    assert!(d.has_data());
    assert_eq!(d.count, 6);
    assert_eq!(d.min, 1);
    assert_eq!(d.max, 100);
    assert_eq!(d.avg_hundredths, 1883);
    assert_eq!(d.latencies, vec![2, 2, 5, 100, 100, 100]);
}

#[test]
fn out_of_range_value_is_refused() {
    let mut s = LatencyStat::with_max(10);
    assert!(s.record_latency(10));
    assert!(!s.record_latency(11));
    assert_eq!(s.count(), 1);
    assert_eq!(s.max(), Some(10));
}

#[test]
fn single_value_is_every_percentile() {
    let s = recorded(&[0]);
    assert_eq!(s.min(), Some(0));
    assert_eq!(s.avg_hundredths(), Some(0));
    assert_eq!(s.evaluation(&vec![0, 50, 100]), Some(vec![0, 0, 0]));
}
