use httpbench::report::{slow_report, status_codes_sorted, ReportLine};
use httpbench::workers::{BenchResult, Outcome};

// Two targets with latencies {0: [10, 20, 30], 1: [100, 200, 300]} and a
// cutoff of 150: only target 1 appears, with its exact statistics.
#[test]
fn slow_report_keeps_only_targets_over_the_cutoff() {
    let times: Vec<(usize, u64)> = vec![
        (0, 10),
        (0, 20),
        (0, 30),
        (1, 100),
        (1, 200),
        (1, 300),
    ];
    let lines = slow_report(&times, 2, 150);
    assert_eq!(
        vec![ReportLine {
            url_index: 1,
            count: 3,
            min: 100,
            max: 300,
            avg: 200,
        }],
        lines
    );
}

#[test]
fn slow_report_sorts_by_worst_latency_descending() {
    let times: Vec<(usize, u64)> = vec![(0, 5), (1, 500), (2, 50), (1, 1), (2, 49)];
    let lines = slow_report(&times, 3, 0);
    let order: Vec<usize> = lines.iter().map(|l| l.url_index).collect();
    assert_eq!(vec![1, 2, 0], order);
    assert_eq!(vec![500, 50, 5], lines.iter().map(|l| l.max).collect::<Vec<u64>>());
}

#[test]
fn slow_report_truncates_the_mean() {
    let times: Vec<(usize, u64)> = vec![(0, 1), (0, 2)];
    let lines = slow_report(&times, 1, 0);
    assert_eq!(1, lines.len());
    assert_eq!(2, lines[0].count);
    assert_eq!(1, lines[0].min);
    assert_eq!(2, lines[0].max);
    assert_eq!(1, lines[0].avg);
}

#[test]
fn slow_report_can_be_empty() {
    let times: Vec<(usize, u64)> = vec![(0, 10), (1, 20)];
    let lines = slow_report(&times, 2, 1000);
    assert!(lines.is_empty());
}

#[test]
fn status_codes_come_out_sorted() {
    let mut result = BenchResult::new();
    for (status, duration) in [(500u16, 1u64), (200, 2), (404, 3), (200, 4)] {
        result.record_outcome(
            0,
            Outcome::Success {
                status,
                duration_ms: duration,
            },
        );
    }
    let codes = status_codes_sorted(&result);
    assert_eq!(vec![200u16, 404, 500], codes);
}
