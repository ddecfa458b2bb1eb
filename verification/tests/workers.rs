use httpbench::workers::{merge_results, BenchResult, Outcome};

fn tally(result: &BenchResult, code: u16) -> u32 {
    result
        .status
        .iter()
        .filter(|entry| entry.0 == code)
        .map(|entry| entry.1)
        .sum()
}

fn sample_results() -> (BenchResult, BenchResult, BenchResult) {
    let mut a = BenchResult::new();
    a.record_outcome(
        0,
        Outcome::Success {
            status: 200,
            duration_ms: 10,
        },
    );
    a.record_outcome(
        1,
        Outcome::Success {
            status: 200,
            duration_ms: 20,
        },
    );
    a.record_outcome(1, Outcome::RequestError);

    let mut b = BenchResult::new();
    b.record_outcome(
        0,
        Outcome::Success {
            status: 404,
            duration_ms: 5,
        },
    );
    b.record_outcome(
        2,
        Outcome::ResponseError {
            status: 500,
            duration_ms: 100,
        },
    );

    let mut c = BenchResult::new();
    c.record_outcome(
        2,
        Outcome::Success {
            status: 200,
            duration_ms: 7,
        },
    );
    c.record_outcome(0, Outcome::RequestError);

    (a, b, c)
}

#[test]
fn record_success_tallies_and_samples() {
    let mut result = BenchResult::new();
    result.record_outcome(
        3,
        Outcome::Success {
            status: 200,
            duration_ms: 42,
        },
    );
    assert_eq!(vec![(200u16, 1u32)], result.status);
    assert_eq!(0, result.request_errors);
    assert_eq!(0, result.response_errors);
    assert_eq!(vec![(3usize, 42u64)], result.request_times);
    assert_eq!(1, result.latency.inner.len());
}

#[test]
fn record_request_error_skips_latency() {
    let mut result = BenchResult::new();
    result.record_outcome(0, Outcome::RequestError);
    assert_eq!(1, result.request_errors);
    assert_eq!(0, result.response_errors);
    assert!(result.status.is_empty());
    assert!(result.request_times.is_empty());
    assert_eq!(0, result.latency.inner.len());
}

#[test]
fn record_response_error_keeps_partial_duration() {
    let mut result = BenchResult::new();
    result.record_outcome(
        1,
        Outcome::ResponseError {
            status: 502,
            duration_ms: 77,
        },
    );
    assert_eq!(0, result.request_errors);
    assert_eq!(1, result.response_errors);
    assert_eq!(vec![(502u16, 1u32)], result.status);
    assert_eq!(vec![(1usize, 77u64)], result.request_times);
    assert_eq!(1, result.latency.inner.len());
}

#[test]
fn latency_histogram_holds_recorded_values() {
    let mut result = BenchResult::new();
    for duration in [10u64, 20, 30] {
        result.record_outcome(
            0,
            Outcome::Success {
                status: 200,
                duration_ms: duration,
            },
        );
    }
    assert_eq!(3, result.latency.inner.len());
    assert_eq!(20, result.latency.inner.value_at_percentile(50f64));
    assert_eq!(30, result.latency.inner.value_at_percentile(100f64));
}

#[test]
fn latency_above_the_tracked_range_is_clamped() {
    let mut result = BenchResult::new();
    result.record_outcome(
        0,
        Outcome::Success {
            status: 200,
            duration_ms: 1_000_000,
        },
    );
    let worst = result.latency.inner.value_at_percentile(100f64);
    assert!(
        (100_000..102_000).contains(&worst),
        "clamped worst latency was {}",
        worst
    );
}

// Accumulating the same worker results in two different orders yields the
// same status totals, error totals and histogram percentiles.
#[test]
fn merge_order_does_not_change_totals() {
    let (a1, b1, c1) = sample_results();
    let (a2, b2, c2) = sample_results();

    let first = merge_results(&vec![a1, b1, c1]);
    let second = merge_results(&vec![c2, b2, a2]);

    for code in [200u16, 404, 500, 503] {
        assert_eq!(tally(&first, code), tally(&second, code));
    }
    assert_eq!(3, tally(&first, 200));
    assert_eq!(1, tally(&first, 404));
    assert_eq!(1, tally(&first, 500));
    assert_eq!(first.request_errors, second.request_errors);
    assert_eq!(2, first.request_errors);
    assert_eq!(first.response_errors, second.response_errors);
    assert_eq!(1, first.response_errors);
    assert_eq!(first.latency.inner.len(), second.latency.inner.len());
    for percentile in [50f64, 75f64, 95f64, 99f64, 99.9f64, 99.99f64, 99.999f64, 100f64] {
        assert_eq!(
            first.latency.inner.value_at_percentile(percentile),
            second.latency.inner.value_at_percentile(percentile)
        );
    }
}

#[test]
fn merge_concatenates_request_samples() {
    let (a, b, c) = sample_results();
    let merged = merge_results(&vec![a, b, c]);
    assert_eq!(
        vec![
            (0usize, 10u64),
            (1, 20),
            (0, 5),
            (2, 100),
            (2, 7),
        ],
        merged.request_times
    );
}
