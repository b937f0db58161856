use hurlbench::reporter::{Reporter, StatusLine, TICK};
use hurlbench::stats::{Statistics, Summary};

const SEC: u128 = 1_000_000_000;

fn zero_summary() -> Summary {
    Summary { max: 0, min: 0, p99_9: 0, p99: 0, p95: 0, p50: 0 }
}

#[test]
fn tick_is_one_second() {
    assert_eq!(TICK, SEC);
}

#[test]
fn first_line_of_an_empty_record_is_all_zero() {
    let stats = Statistics::new();
    let mut reporter = Reporter::new();
    let line = reporter.tick(&stats, 0, 10 * SEC, 0);
    assert_eq!(
        line,
        StatusLine { elapsed: 0, total: 10 * SEC, requests_per_second: 0, summary: zero_summary() }
    );
}

#[test]
fn rate_is_requests_since_the_last_line_per_second() {
    let mut stats = Statistics::new();
    let mut reporter = Reporter::new();
    for n in 0..500u128 {
        stats.track(n);
    }
    let line = reporter.tick(&stats, SEC, 10 * SEC, SEC);
    assert_eq!(line.requests_per_second, 500);
    assert_eq!(line.elapsed, SEC);
    assert_eq!(line.total, 10 * SEC);
    for n in 0..300u128 {
        stats.track(n);
    }
    // 300 requests in 1.5 s
    let line = reporter.tick(&stats, 5 * SEC / 2, 10 * SEC, 3 * SEC / 2);
    assert_eq!(line.requests_per_second, 200);
    // nothing new
    let line = reporter.tick(&stats, 7 * SEC / 2, 10 * SEC, SEC);
    assert_eq!(line.requests_per_second, 0);
}

#[test]
fn rate_rounds_down() {
    let mut stats = Statistics::new();
    let mut reporter = Reporter::new();
    for _ in 0..10 {
        stats.track(1);
    }
    // 10 requests in 3 s: 3.33 per second
    assert_eq!(reporter.tick(&stats, 3 * SEC, 10 * SEC, 3 * SEC).requests_per_second, 3);
    stats.track(1);
    // 1 request in 1.000000001 s: just under one per second
    assert_eq!(reporter.tick(&stats, 4 * SEC, 10 * SEC, SEC + 1).requests_per_second, 0);
    stats.track(1);
    assert_eq!(reporter.tick(&stats, 5 * SEC, 10 * SEC, SEC).requests_per_second, 1);
    stats.track(1);
    // 1 request in half a second
    assert_eq!(reporter.tick(&stats, 6 * SEC, 10 * SEC, SEC / 2).requests_per_second, 2);
}

#[test]
fn rate_in_no_time() {
    let mut stats = Statistics::new();
    let mut reporter = Reporter::new();
    assert_eq!(reporter.tick(&stats, 0, SEC, 0).requests_per_second, 0);
    stats.track(1);
    assert_eq!(reporter.tick(&stats, 0, SEC, 0).requests_per_second, usize::MAX);
    stats.track(1);
    // one request in a nanosecond
    assert_eq!(reporter.tick(&stats, 1, SEC, 1).requests_per_second, 1_000_000_000);
}

#[test]
fn line_carries_the_summary_of_all_samples() {
    let mut stats = Statistics::new();
    let mut reporter = Reporter::new();
    for n in 1..=1000u128 {
        stats.track(n);
    }
    let line = reporter.tick(&stats, SEC, 2 * SEC, SEC);
    assert_eq!(line.summary, stats.summary());
    assert_eq!(
        line.summary,
        Summary { max: 1000, min: 1, p99_9: 999, p99: 990, p95: 950, p50: 500 }
    );
    assert_eq!(line.requests_per_second, 1000);
}

#[test]
fn a_smaller_count_is_no_progress() {
    let mut full = Statistics::new();
    for n in 0..10u128 {
        full.track(n);
    }
    let empty = Statistics::new();
    let mut reporter = Reporter::new();
    assert_eq!(reporter.tick(&full, SEC, 5 * SEC, SEC).requests_per_second, 10);
    assert_eq!(reporter.tick(&empty, 2 * SEC, 5 * SEC, SEC).requests_per_second, 0);
    assert_eq!(reporter.tick(&full, 3 * SEC, 5 * SEC, SEC).requests_per_second, 10);
}
