use stopwatch2::{format_elapsed_ns, Stopwatch, TimeSpan};

#[test]
fn duration_exact() {
    let closed = TimeSpan { start: 3, stop: Some(10) };
    assert_eq!(closed.duration_ns(999), 7);
    let open = TimeSpan { start: 3, stop: None };
    assert_eq!(open.duration_ns(10), 7);
    assert_eq!(open.duration_ns(3), 0);
}

#[test]
fn duration_saturates() {
    // A closed span whose end lies before its start, and an open span
    // queried before its start, both count as zero rather than wrapping.
    let backwards = TimeSpan { start: 50, stop: Some(20) };
    assert_eq!(backwards.duration_ns(0), 0);
    let open = TimeSpan { start: 100, stop: None };
    assert_eq!(open.duration_ns(60), 0);
}

#[test]
fn split_exact() {
    let mut sw = Stopwatch::default();
    let first = sw.start_at(10);
    assert!(first.is_none());
    let split = sw.start_at(25).unwrap();
    assert_eq!(split.start, 10);
    assert_eq!(split.stop, Some(25));
    let last = sw.stop_at(40).unwrap();
    assert_eq!(last.start, 25);
    assert_eq!(last.stop, Some(40));
    assert_eq!(sw.spans.len(), 2);
    assert_eq!(sw.elapsed_at(999), 30);
}

#[test]
fn stop_when_idle_exact() {
    let mut sw = Stopwatch::default();
    assert!(sw.stop_at(5).is_none());
    assert_eq!(sw.spans.len(), 0);
    sw.start_at(10);
    sw.stop_at(30);
    // Stopping again and again changes nothing.
    assert!(sw.stop_at(40).is_none());
    assert!(sw.stop().is_none());
    assert_eq!(sw.spans.len(), 1);
    assert_eq!(sw.spans[0].stop, Some(30));
    assert_eq!(sw.elapsed(), 20);
}

#[test]
fn elapsed_stable_when_stopped() {
    let mut sw = Stopwatch::default();
    sw.spans.push(TimeSpan { start: 0, stop: Some(5) });
    sw.spans.push(TimeSpan { start: 10, stop: Some(25) });
    // Every span is closed, so the total is exact and stable.
    assert_eq!(sw.elapsed(), 20);
    assert_eq!(sw.elapsed(), 20);
    assert_eq!(sw.elapsed_at(0), 20);
    assert_eq!(sw.elapsed_at(u64::MAX), 20);
}

#[test]
fn elapsed_sums_beyond_u64() {
    let mut sw = Stopwatch::default();
    sw.spans.push(TimeSpan { start: 0, stop: Some(u64::MAX) });
    sw.spans.push(TimeSpan { start: 0, stop: Some(u64::MAX) });
    assert_eq!(sw.elapsed_at(0), 2 * (u64::MAX as u128));
}

#[test]
fn open_span_counts_up_to_now() {
    let mut sw = Stopwatch::default();
    sw.start_at(100);
    assert_eq!(sw.elapsed_at(100), 0);
    assert_eq!(sw.elapsed_at(175), 75);
    assert_eq!(sw.elapsed_at(300), 200);
}

#[test]
fn fresh_stopwatch_is_zero() {
    let mut sw = Stopwatch::default();
    assert_eq!(sw.spans.len(), 0);
    assert!(!sw.is_running());
    assert_eq!(sw.elapsed(), 0);
    assert!(sw.stop().is_none());
    assert_eq!(sw.elapsed(), 0);
}

#[test]
fn reset_drops_history() {
    let mut sw = Stopwatch::default();
    sw.start_at(10);
    sw.stop_at(500);
    sw.start_at(600);
    sw.spans.clear();
    assert!(!sw.is_running());
    sw.start_at(1000);
    assert_eq!(sw.elapsed_at(1001), 1);
}

#[test]
fn render_whole_seconds() {
    assert_eq!(format_elapsed_ns(0), "0s");
    assert_eq!(format_elapsed_ns(2_000_000_000), "2s");
    assert_eq!(format_elapsed_ns(12_000_000_000), "12s");
}

#[test]
fn render_trims_fraction() {
    assert_eq!(format_elapsed_ns(1_500_000_000), "1.5s");
    assert_eq!(format_elapsed_ns(50_000_000), "0.05s");
    assert_eq!(format_elapsed_ns(1_234_000_000), "1.234s");
    assert_eq!(format_elapsed_ns(1), "0.000000001s");
    assert_eq!(format_elapsed_ns(999_999_999), "0.999999999s");
}

#[test]
fn render_of_stopped_watch() {
    let mut sw = Stopwatch::default();
    sw.start_at(0);
    sw.stop_at(1_250_000_000);
    assert_eq!(sw.render(), "1.25s");
}
