use hurlbench::stats::{Statistics, Summary};

const MS: u128 = 1_000_000;

fn filled(samples: &[u128]) -> Statistics {
    let mut stats = Statistics::new();
    for s in samples {
        stats.track(*s);
    }
    stats
}

#[test]
fn empty_record_has_no_statistics() {
    let stats = Statistics::new();
    assert_eq!(stats.request_count(), 0);
    assert_eq!(stats.get_min_duration(), None);
    assert_eq!(stats.get_max_duration(), None);
    assert_eq!(stats.p(0), None);
    assert_eq!(stats.p(500), None);
    assert_eq!(stats.p(999), None);
    assert_eq!(stats.p(1000), None);
    assert_eq!(stats.p(u32::MAX), None);
}

#[test]
fn count_follows_each_insert() {
    let mut stats = Statistics::new();
    for n in 1..=250usize {
        stats.track((n as u128 * 7919) % 101);
        assert_eq!(stats.request_count(), n);
    }
}

#[test]
fn extremes_are_the_true_extremes() {
    let mut stats = Statistics::new();
    let samples: [u128; 8] = [50, 20, 90, 20, 70, 10, 90, 30];
    let mut lo = u128::MAX;
    let mut hi = 0;
    for s in samples {
        stats.track(s);
        lo = lo.min(s);
        hi = hi.max(s);
        assert_eq!(stats.get_min_duration(), Some(lo));
        assert_eq!(stats.get_max_duration(), Some(hi));
    }
    assert_eq!(stats.get_min_duration(), Some(10));
    assert_eq!(stats.get_max_duration(), Some(90));
}

#[test]
fn single_sample_is_every_statistic() {
    let stats = filled(&[42]);
    assert_eq!(stats.get_min_duration(), Some(42));
    assert_eq!(stats.get_max_duration(), Some(42));
    for p in [0, 1, 500, 950, 990, 999, 1000, 5000] {
        assert_eq!(stats.p(p), Some(42));
    }
}

#[test]
fn median_of_one_to_hundred_milliseconds() {
    let samples: Vec<u128> = (1..=100u128).map(|n| n * MS).collect();
    let stats = filled(&samples);
    assert_eq!(stats.request_count(), 100);
    // 100 * (1 - 0.5) = 50 places below the top: the 50th value from the bottom
    assert_eq!(stats.p(500), Some(50 * MS));
    assert_eq!(stats.p(950), Some(95 * MS));
    assert_eq!(stats.p(990), Some(99 * MS));
    // 100 * 0.001 rounds down to no place below the top
    assert_eq!(stats.p(999), Some(100 * MS));
    assert_eq!(stats.p(1000), stats.get_max_duration());
    assert_eq!(stats.p(1000), Some(100 * MS));
    assert_eq!(stats.p(0), stats.get_min_duration());
    assert_eq!(stats.p(0), Some(MS));
}

#[test]
fn percentile_rank_rounds_down() {
    // 7 samples, the median: floor(7 * 0.5) = 3 places below the top
    let stats = filled(&[70, 10, 60, 20, 50, 30, 40]);
    assert_eq!(stats.p(500), Some(40));
    // the 90th: floor(0.7) = 0 places below the top
    assert_eq!(stats.p(900), Some(70));
    // the 80th: floor(1.4) = 1
    assert_eq!(stats.p(800), Some(60));
    // the first percentile: floor(6.93) = 6
    assert_eq!(stats.p(10), Some(10));
}

#[test]
fn percentile_above_hundred_is_the_maximum() {
    let stats = filled(&[3, 1, 2]);
    assert_eq!(stats.p(1001), Some(3));
    assert_eq!(stats.p(u32::MAX), Some(3));
}

#[test]
fn percentile_of_few_samples_stays_in_bounds() {
    for n in 1..=12u128 {
        let samples: Vec<u128> = (1..=n).collect();
        let stats = filled(&samples);
        for p in 0..=1000u32 {
            let v = stats.p(p).unwrap();
            assert!(1 <= v && v <= n);
        }
        assert_eq!(stats.p(1000), Some(n));
        assert_eq!(stats.p(0), Some(1));
    }
}

#[test]
fn order_of_arrival_does_not_matter() {
    let sorted: Vec<u128> = (0..500u128).map(|n| n / 3).collect();
    let mut shuffled = sorted.clone();
    let mut state: u64 = 0x9E37_79B9_7F4A_7C15;
    for i in (1..shuffled.len()).rev() {
        state = state.wrapping_mul(6364136223846793005).wrapping_add(1442695040888963407);
        let j = (state >> 33) as usize % (i + 1);
        shuffled.swap(i, j);
    }
    let mut reversed = sorted.clone();
    reversed.reverse();
    let a = filled(&sorted);
    let b = filled(&shuffled);
    let c = filled(&reversed);
    assert_eq!(a.get_min_duration(), b.get_min_duration());
    assert_eq!(a.get_max_duration(), b.get_max_duration());
    assert_eq!(a.get_min_duration(), c.get_min_duration());
    assert_eq!(a.get_max_duration(), c.get_max_duration());
    for p in 0..=1000u32 {
        assert_eq!(a.p(p), b.p(p));
        assert_eq!(a.p(p), c.p(p));
    }
    assert_eq!(a.summary(), b.summary());
    assert_eq!(a.summary(), c.summary());
}

#[test]
fn percentiles_agree_with_a_full_sort() {
    let mut samples: Vec<u128> = Vec::new();
    let mut state: u64 = 12345;
    for _ in 0..1000 {
        state = state.wrapping_mul(6364136223846793005).wrapping_add(1442695040888963407);
        samples.push((state >> 40) as u128);
    }
    let stats = filled(&samples);
    let mut sorted = samples.clone();
    sorted.sort();
    let n = sorted.len();
    for p in [0u32, 1, 250, 500, 750, 900, 950, 990, 999, 1000] {
        let rank = (n * (1000 - p as usize) / 1000).min(n - 1);
        assert_eq!(stats.p(p), Some(sorted[n - 1 - rank]));
    }
}

#[test]
fn percentile_reflects_samples_tracked_since_last_query() {
    let mut stats = filled(&[10, 20, 30]);
    assert_eq!(stats.p(1000), Some(30));
    stats.track(40);
    assert_eq!(stats.p(1000), Some(40));
    stats.track(5);
    assert_eq!(stats.p(0), Some(5));
    assert_eq!(stats.request_count(), 5);
}

#[test]
fn summary_of_empty_record_is_all_zero() {
    let stats = Statistics::new();
    assert_eq!(
        stats.summary(),
        Summary { max: 0, min: 0, p99_9: 0, p99: 0, p95: 0, p50: 0 }
    );
}

#[test]
fn summary_holds_the_six_statistics() {
    let samples: Vec<u128> = (1..=1000u128).rev().collect();
    let stats = filled(&samples);
    assert_eq!(
        stats.summary(),
        Summary { max: 1000, min: 1, p99_9: 999, p99: 990, p95: 950, p50: 500 }
    );
    let s = stats.summary();
    assert_eq!(Some(s.max), stats.get_max_duration());
    assert_eq!(Some(s.min), stats.get_min_duration());
    assert_eq!(Some(s.p99_9), stats.p(999));
    assert_eq!(Some(s.p99), stats.p(990));
    assert_eq!(Some(s.p95), stats.p(950));
    assert_eq!(Some(s.p50), stats.p(500));
}

#[test]
fn largest_latency_is_kept_exactly() {
    let stats = filled(&[u128::MAX, 0, u128::MAX - 1]);
    assert_eq!(stats.get_max_duration(), Some(u128::MAX));
    assert_eq!(stats.get_min_duration(), Some(0));
    assert_eq!(stats.p(500), Some(u128::MAX - 1));
}
