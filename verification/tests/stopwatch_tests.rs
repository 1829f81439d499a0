use stopwatch2::Stopwatch;

const SLEEP_MS: u64 = 50;
const TOLERANCE_PERCENTAGE: f64 = 0.3;

#[test]
fn repeated_stops() {
    let mut sw = Stopwatch::default();
    for _ in 0..1000 {
        sw.start();
    }
    sw.stop();
    assert_eq!(sw.spans.len(), 1000);
    assert!(sw.spans.last().unwrap().stop.is_some());
}

#[test]
fn elapsed_none() {
    let mut sw = Stopwatch::default();
    sw.stop();
    sw.stop();
    assert_eq!(sw.elapsed(), 0);
}

#[test]
fn elapsed_ms() {
    let mut sw = Stopwatch::default();
    sw.start();
    sleep_ms(SLEEP_MS);
    assert_duration_near(sw.elapsed(), SLEEP_MS);
}

#[test]
fn stop() {
    let mut sw = Stopwatch::default();
    sw.start();
    sleep_ms(SLEEP_MS);
    sw.stop();
    assert_duration_near(sw.elapsed(), SLEEP_MS);
    sleep_ms(SLEEP_MS);
    assert_duration_near(sw.elapsed(), SLEEP_MS);
}

#[test]
fn resume_once() {
    let mut sw = Stopwatch::default();
    assert_eq!(sw.spans.len(), 0);
    sw.start();
    assert_eq!(sw.spans.len(), 1);
    sleep_ms(SLEEP_MS);
    sw.stop();
    assert_eq!(sw.spans.len(), 1);
    assert_duration_near(sw.elapsed(), SLEEP_MS);
    sw.start();
    assert_eq!(sw.spans.len(), 2);
    sleep_ms(SLEEP_MS);
    assert_duration_near(sw.elapsed(), 2 * SLEEP_MS);
}

#[test]
fn resume_twice() {
    let mut sw = Stopwatch::default();
    assert_eq!(sw.spans.len(), 0);
    sw.start();
    sleep_ms(SLEEP_MS);
    sw.stop();
    assert_eq!(sw.spans.len(), 1);
    assert_duration_near(sw.elapsed(), SLEEP_MS);
    sw.start();
    assert_eq!(sw.spans.len(), 2);
    sleep_ms(SLEEP_MS);
    sw.start();
    assert_eq!(sw.spans.len(), 3);
    assert_duration_near(sw.elapsed(), 2 * SLEEP_MS);
    sw.start();
    assert_eq!(sw.spans.len(), 4);
    sleep_ms(SLEEP_MS);
    assert_duration_near(sw.elapsed(), 3 * SLEEP_MS);
}

#[test]
fn is_running() {
    let mut sw = Stopwatch::default();
    assert!(!sw.is_running());
    sw.start();
    assert!(sw.is_running());
    sw.stop();
    assert!(!sw.is_running());
}

#[test]
fn reset() {
    let mut sw = Stopwatch::default();
    sw.start();
    sleep_ms(SLEEP_MS);
    sw.spans.clear();
    assert!(!sw.is_running());
    sw.start();
    sleep_ms(SLEEP_MS);
    assert_duration_near(sw.elapsed(), SLEEP_MS);
}

// helpers

/// Waits on the monotonic clock without suspending the thread.
fn sleep_ms(ms: u64) {
    let begin = std::time::Instant::now();
    while begin.elapsed() < std::time::Duration::from_millis(ms) {}
}

fn assert_near(x: i64, y: i64, tolerance: u64) {
    let diff = (x - y).unsigned_abs();
    if diff > tolerance {
        panic!("Expected {:?}, got {:?}", x, y);
    }
}

fn assert_duration_near(duration_ns: u128, elapsed: u64) {
    let tolerance_value = (TOLERANCE_PERCENTAGE * elapsed as f64) as u64;
    let duration_ms = (duration_ns / 1_000_000) as i64;
    assert_near(elapsed as i64, duration_ms, tolerance_value);
}
