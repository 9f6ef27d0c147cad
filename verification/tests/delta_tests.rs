use harness::{
    average_overall_score, compute_optimize_delta, compute_task_overlap, relative_delta,
    screen_traces, validate_bench_compare_compatibility, BenchContext, BenchRunResult,
    OptimizationThresholds, OptimizeDeltaStatus, Ratio, RawTraceLine, TraceRecord,
    TraceScanStats,
};

const NOW_MS: i64 = 1700000000000;
const DAY_MS: i64 = 86400000;

fn thresholds_for_tests() -> OptimizationThresholds {
    OptimizationThresholds {
        min_traces: 1,
        min_uplift_abs: 50,
        min_uplift_rel: 100,
        trace_staleness_days: 90,
        task_overlap_threshold: 500,
    }
}

fn make_recent_trace(
    revision: &str,
    task_id: &str,
    outcome: &str,
    steps: u32,
    token_est: u64,
    ts: i64,
) -> TraceRecord {
    TraceRecord {
        timestamp: ts,
        task_id: task_id.to_owned(),
        revision: revision.to_owned(),
        outcome: outcome.to_owned(),
        steps: Some(steps),
        token_est: Some(token_est),
    }
}

#[test]
fn compute_optimize_delta_detects_improvement() {
    let thresholds = thresholds_for_tests();
    let traces = vec![
        make_recent_trace("rev-a", "task-1", "failure", 20, 200, NOW_MS - 2),
        make_recent_trace("rev-a", "task-2", "success", 20, 200, NOW_MS - 2),
        make_recent_trace("rev-b", "task-1", "success", 10, 100, NOW_MS - 1),
        make_recent_trace("rev-b", "task-2", "success", 10, 100, NOW_MS - 1),
    ];
    let delta = compute_optimize_delta(&traces, &thresholds);
    assert_eq!(delta.status, OptimizeDeltaStatus::Improvement);
    assert!(delta.completion_delta.num > 0);
    assert!(delta.token_delta_rel.num < 0);
    assert!(delta.step_delta_rel.num < 0);
}

#[test]
fn compute_optimize_delta_detects_regression() {
    let thresholds = thresholds_for_tests();
    let traces = vec![
        make_recent_trace("rev-a", "task-1", "success", 10, 100, NOW_MS - 2),
        make_recent_trace("rev-a", "task-2", "success", 10, 100, NOW_MS - 2),
        make_recent_trace("rev-b", "task-1", "failure", 20, 220, NOW_MS - 1),
        make_recent_trace("rev-b", "task-2", "success", 20, 220, NOW_MS - 1),
    ];
    let delta = compute_optimize_delta(&traces, &thresholds);
    assert_eq!(delta.status, OptimizeDeltaStatus::Regression);
    assert!(delta.completion_delta.num < 0);
    assert!(delta.token_delta_rel.num > 0);
    assert!(delta.step_delta_rel.num > 0);
}

#[test]
fn compute_optimize_delta_rejects_low_task_overlap() {
    let mut thresholds = thresholds_for_tests();
    thresholds.task_overlap_threshold = 800;
    let traces = vec![
        make_recent_trace("rev-a", "task-1", "success", 10, 100, NOW_MS - 2),
        make_recent_trace("rev-a", "task-2", "success", 10, 100, NOW_MS - 2),
        make_recent_trace("rev-b", "task-3", "success", 10, 100, NOW_MS - 1),
        make_recent_trace("rev-b", "task-4", "success", 10, 100, NOW_MS - 1),
    ];
    let delta = compute_optimize_delta(&traces, &thresholds);
    assert_eq!(delta.status, OptimizeDeltaStatus::InsufficientData);
    let reason = delta.reason.expect("reason should exist");
    assert!(reason.contains("task overlap"));
}

#[test]
fn compute_optimize_delta_needs_two_revisions() {
    let thresholds = thresholds_for_tests();
    let traces = vec![
        make_recent_trace("rev-a", "task-1", "success", 10, 100, NOW_MS - 2),
        make_recent_trace("rev-a", "task-2", "success", 10, 100, NOW_MS - 1),
    ];
    let delta = compute_optimize_delta(&traces, &thresholds);
    assert_eq!(delta.status, OptimizeDeltaStatus::InsufficientData);
    assert_eq!(
        delta.reason.expect("reason should exist"),
        "need traces from at least two revisions"
    );
    assert!(delta.baseline_revision.is_none());
    assert!(delta.current_revision.is_none());
}

#[test]
fn compute_optimize_delta_reports_min_trace_counts() {
    let mut thresholds = thresholds_for_tests();
    thresholds.min_traces = 3;
    let traces = vec![
        make_recent_trace("rev-a", "task-1", "success", 10, 100, NOW_MS - 2),
        make_recent_trace("rev-a", "task-2", "success", 10, 100, NOW_MS - 2),
        make_recent_trace("rev-b", "task-1", "success", 10, 100, NOW_MS - 1),
    ];
    let delta = compute_optimize_delta(&traces, &thresholds);
    assert_eq!(delta.status, OptimizeDeltaStatus::InsufficientData);
    assert_eq!(
        delta.reason.expect("reason should exist"),
        "need at least 3 traces per revision (baseline=2, current=1)"
    );
}

#[test]
fn compute_optimize_delta_is_neutral_below_thresholds() {
    let thresholds = thresholds_for_tests();
    let traces = vec![
        make_recent_trace("rev-a", "task-1", "success", 10, 100, NOW_MS - 2),
        make_recent_trace("rev-b", "task-1", "success", 10, 100, NOW_MS - 1),
    ];
    let delta = compute_optimize_delta(&traces, &thresholds);
    assert_eq!(delta.status, OptimizeDeltaStatus::Neutral);
    assert_eq!(
        delta.reason.expect("reason should exist"),
        "changes are below configured uplift thresholds"
    );
    assert_eq!(delta.baseline_revision.as_deref(), Some("rev-a"));
    assert_eq!(delta.current_revision.as_deref(), Some("rev-b"));
}

#[test]
fn recency_picks_the_two_most_recent_revisions() {
    let thresholds = thresholds_for_tests();
    let traces = vec![
        make_recent_trace("old", "task-1", "success", 10, 100, NOW_MS - 3 * DAY_MS),
        make_recent_trace("mid", "task-1", "failure", 10, 100, NOW_MS - 2 * DAY_MS),
        make_recent_trace("new", "task-1", "success", 10, 100, NOW_MS - DAY_MS),
    ];
    let delta = compute_optimize_delta(&traces, &thresholds);
    assert_eq!(delta.baseline_revision.as_deref(), Some("mid"));
    assert_eq!(delta.current_revision.as_deref(), Some("new"));
    assert_eq!(delta.status, OptimizeDeltaStatus::Improvement);
}

#[test]
fn task_overlap_of_disjoint_sets_is_zero() {
    let a = vec!["t1".to_owned(), "t2".to_owned()];
    let b = vec!["t3".to_owned()];
    let overlap = compute_task_overlap(&a, &b);
    assert_eq!(overlap.num, 0);
    assert_eq!(overlap.den, 3);
}

#[test]
fn task_overlap_of_empty_sets_is_zero_not_one() {
    let a: Vec<String> = vec![];
    let b: Vec<String> = vec![];
    let overlap = compute_task_overlap(&a, &b);
    assert_eq!(overlap.num, 0);
    assert_eq!(overlap.den, 1);
}

#[test]
fn task_overlap_of_identical_sets_is_one() {
    let a = vec!["t1".to_owned(), "t2".to_owned()];
    let b = vec!["t2".to_owned(), "t1".to_owned()];
    let overlap = compute_task_overlap(&a, &b);
    assert_eq!(overlap.num, 2);
    assert_eq!(overlap.den, 2);
}

#[test]
fn relative_delta_with_zero_baseline_is_exactly_zero() {
    let baseline = Ratio { num: 0, den: 1 };
    let current = Ratio { num: 123456, den: 7 };
    let r = relative_delta(baseline, current);
    assert_eq!(r.num, 0);
    assert_eq!(r.den, 1);
}

#[test]
fn relative_delta_halving_is_minus_one_half() {
    let baseline = Ratio { num: 200, den: 1 };
    let current = Ratio { num: 100, den: 1 };
    let r = relative_delta(baseline, current);
    // (100 - 200) / 200 = -1/2
    assert_eq!(r.num * 2, -r.den);
}

#[test]
fn count_recent_traces_reports_recent_stale_and_malformed_records() {
    let lines = vec![
        RawTraceLine::Entry {
            timestamp: NOW_MS,
            task_id: None,
            revision: None,
            outcome: None,
            steps: None,
            token_est: None,
        },
        RawTraceLine::Entry {
            timestamp: NOW_MS - 120 * DAY_MS,
            task_id: None,
            revision: None,
            outcome: None,
            steps: None,
            token_est: None,
        },
        RawTraceLine::Malformed,
        RawTraceLine::Malformed,
    ];
    let (stats, kept) = screen_traces(&lines, NOW_MS, 90);
    assert_eq!(
        stats,
        TraceScanStats {
            recent: 1,
            stale: 1,
            malformed: 2,
        }
    );
    assert!(kept.is_empty());
}

#[test]
fn screen_traces_keeps_complete_recent_records() {
    let lines = vec![RawTraceLine::Entry {
        timestamp: NOW_MS - DAY_MS,
        task_id: Some("t1".to_owned()),
        revision: Some("rev-a".to_owned()),
        outcome: Some("success".to_owned()),
        steps: Some(4),
        token_est: Some(900),
    }];
    let (stats, kept) = screen_traces(&lines, NOW_MS, 90);
    assert_eq!(stats.recent, 1);
    assert_eq!(kept.len(), 1);
    assert_eq!(kept[0].revision, "rev-a");
    assert_eq!(kept[0].steps, Some(4));
}

fn make_bench_context(os: &str, toolchain: &str, repo_dirty: bool) -> BenchContext {
    BenchContext {
        os: os.to_owned(),
        toolchain: toolchain.to_owned(),
        repo_ref: "abc".to_owned(),
        repo_dirty,
        harness_version: "0.1.0".to_owned(),
        suite: "default".to_owned(),
        timestamp: "2026-02-27T00:00:00Z".to_owned(),
    }
}

#[test]
fn bench_compare_rejects_mismatched_context_without_force() {
    let current = make_bench_context("linux-x86_64", "rustc 1.77.0", false);
    let baseline = make_bench_context("darwin-aarch64", "rustc 1.77.0", false);

    let err = validate_bench_compare_compatibility(&current, &baseline, false)
        .expect_err("compare should be blocked");
    let rendered = err.message();
    assert!(rendered.contains("bench compare blocked"));
    assert!(rendered.contains("os"));
}

#[test]
fn bench_compare_allows_mismatched_context_with_force() {
    let current = make_bench_context("linux-x86_64", "rustc 1.77.0", false);
    let baseline = make_bench_context("darwin-aarch64", "rustc 1.77.0", false);

    let result = validate_bench_compare_compatibility(&current, &baseline, true);
    assert!(result.is_ok());
}

#[test]
fn bench_average_overall_score_handles_empty_and_non_empty_runs() {
    let empty: Vec<BenchRunResult> = vec![];
    assert_eq!(average_overall_score(&empty), 0);
    let runs = vec![
        BenchRunResult {
            run: 1,
            overall_score: 600,
        },
        BenchRunResult {
            run: 2,
            overall_score: 800,
        },
    ];
    assert_eq!(average_overall_score(&runs), 700);
}

#[test]
fn default_thresholds_match_documented_values() {
    let thresholds = OptimizationThresholds::default();
    assert_eq!(
        thresholds,
        OptimizationThresholds {
            min_traces: 30,
            min_uplift_abs: 50,
            min_uplift_rel: 100,
            trace_staleness_days: 90,
            task_overlap_threshold: 500,
        }
    );
}
