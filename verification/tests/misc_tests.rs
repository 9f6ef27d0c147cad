use harness::{
    build_changes, render_optimize_report, resolve_path, resolve_settings, should_record_progress,
    to_markdown, validate_plan_path, ChangeAction, Effort, HarnessReport, Impact,
    OptimizationThresholds, OptimizeDelta, OptimizeDeltaStatus, Ratio, Recommendation, Risk,
    SamplingMode, ScoreCard, TraceScanStats,
};

#[test]
fn test_plan_file_rejects_path_traversal() {
    assert!(validate_plan_path("../../etc/passwd").is_err());
    assert!(validate_plan_path("plans/good.json").is_ok());
}

#[test]
fn plan_path_rejects_absolute_and_embedded_parent() {
    assert!(validate_plan_path("/etc/passwd").is_err());
    assert!(validate_plan_path("plans/../../secret").is_err());
    assert!(validate_plan_path("plans/..").is_err());
    assert!(validate_plan_path("plans/..hidden.json").is_ok());
}

#[test]
fn test_build_changes_for_context_index_recommendation() {
    let ids = vec!["rec.context.index".to_owned()];
    let agents = "# Agents\n".to_owned();
    let changes = build_changes(&ids, false, Some(&agents), false);

    assert!(changes.iter().any(|change| {
        change.action == ChangeAction::Create && change.rel_path == "docs/context/INDEX.md"
    }));
    assert!(changes.iter().any(|change| {
        change.action == ChangeAction::Modify && change.rel_path == "AGENTS.md"
    }));
}

#[test]
fn build_changes_appends_link_preserving_content() {
    let ids = vec!["rec.context.index".to_owned()];
    let agents = "# Agents".to_owned();
    let changes = build_changes(&ids, true, Some(&agents), false);
    assert_eq!(changes.len(), 1);
    assert_eq!(
        changes[0].content,
        "# Agents\n- Context index: docs/context/INDEX.md\n"
    );
}

#[test]
fn build_changes_honours_each_recommendation_once() {
    let ids = vec![
        "rec.repo.scale".to_owned(),
        "rec.repo.scale".to_owned(),
    ];
    let changes = build_changes(&ids, true, None, false);
    assert_eq!(changes.len(), 1);
    assert_eq!(changes[0].rel_path, "ARCHITECTURE.md");
}

#[test]
fn resolve_path_keeps_absolute_paths() {
    assert_eq!(resolve_path("/repo", "/abs/file.md"), "/abs/file.md");
    assert_eq!(resolve_path("/repo", "notes.md"), "/repo/notes.md");
    assert_eq!(resolve_path("/repo/", "notes.md"), "/repo/notes.md");
}

#[test]
fn resolve_settings_uses_documented_defaults() {
    let settings = resolve_settings("/repo", None);
    assert_eq!(settings.progress_file, "/repo/.harness/progress.md");
    assert_eq!(settings.sampling_mode, SamplingMode::Milestones);
    assert_eq!(settings.batch_interval_secs, 60);
    assert_eq!(settings.max_log_size_kb, 100);
    assert_eq!(settings.retained_logs, 3);
    assert!(!should_record_progress(settings.sampling_mode));
    assert!(should_record_progress(SamplingMode::All));
}

fn sample_report(recommendations: Vec<Recommendation>) -> HarnessReport {
    HarnessReport {
        overall_score: 500,
        category_scores: ScoreCard {
            context: 100,
            tools: 200,
            continuity: 300,
            verification: 400,
            repository_quality: 500,
            overall: 500,
        },
        findings: vec![],
        recommendations,
    }
}

fn rec(id: &str, title: &str, impact: Impact, effort: Effort, risk: Risk) -> Recommendation {
    Recommendation::new(
        id.to_owned(),
        title.to_owned(),
        format!("{} summary", id),
        impact,
        effort,
        risk,
        900,
    )
}

#[test]
fn markdown_report_contains_sections() {
    let report = sample_report(vec![rec(
        "id",
        "Title",
        Impact::Medium,
        Effort::M,
        Risk::Medium,
    )]);
    let rendered = to_markdown(&report);
    assert!(rendered.contains("# Harness Report"));
    assert!(rendered.contains("## Category Scores"));
    assert!(rendered.contains("## Recommendations"));
    assert!(rendered.contains("Overall score: 0.500"));
    assert!(rendered.contains("- context: 0.100"));
    assert!(rendered.contains("(Medium/M, confidence 0.90): id summary"));
}

fn neutral_delta() -> OptimizeDelta {
    OptimizeDelta {
        status: OptimizeDeltaStatus::Neutral,
        baseline_revision: Some("rev-a".to_owned()),
        current_revision: Some("rev-b".to_owned()),
        completion_delta: Ratio { num: 0, den: 1 },
        token_delta_rel: Ratio { num: 0, den: 1 },
        step_delta_rel: Ratio { num: 0, den: 1 },
        task_overlap: Ratio { num: 1, den: 1 },
        reason: Some("changes are below configured uplift thresholds".to_owned()),
    }
}

fn scan(recent: u64, stale: u64, malformed: u64) -> TraceScanStats {
    TraceScanStats {
        recent,
        stale,
        malformed,
    }
}

#[test]
fn render_optimize_report_orders_recommendations_by_priority() {
    let mut report = sample_report(vec![
        rec("low", "Low", Impact::Low, Effort::Xs, Risk::Safe),
        rec("high", "High", Impact::High, Effort::S, Risk::Safe),
    ]);
    report.sort_recommendations();
    let rendered = render_optimize_report(
        &report,
        scan(30, 0, 0),
        &OptimizationThresholds::default(),
        ".harness/traces",
        &neutral_delta(),
    );
    let high_pos = rendered
        .find("`high`")
        .expect("high recommendation should render");
    let low_pos = rendered
        .find("`low`")
        .expect("low recommendation should render");
    assert!(
        high_pos < low_pos,
        "high-priority recommendation should appear first"
    );
}

#[test]
fn render_optimize_report_shows_insufficient_data_gate() {
    let report = sample_report(vec![rec(
        "high",
        "High",
        Impact::High,
        Effort::S,
        Risk::Safe,
    )]);
    let rendered = render_optimize_report(
        &report,
        scan(2, 0, 0),
        &OptimizationThresholds::default(),
        ".harness/traces",
        &neutral_delta(),
    );
    assert!(rendered.contains("insufficient data"));
    assert!(!rendered.contains("## Top Recommendations"));
}

#[test]
fn render_optimize_report_surfaces_malformed_trace_warning() {
    let report = sample_report(vec![]);
    let rendered = render_optimize_report(
        &report,
        scan(30, 1, 2),
        &OptimizationThresholds::default(),
        ".harness/traces",
        &neutral_delta(),
    );
    assert!(rendered.contains("ignored malformed trace records: 2"));
}

#[test]
fn render_optimize_report_omits_recommendations_on_insufficient_delta() {
    let report = sample_report(vec![rec(
        "high",
        "High",
        Impact::High,
        Effort::S,
        Risk::Safe,
    )]);
    let mut delta = neutral_delta();
    delta.status = OptimizeDeltaStatus::InsufficientData;
    delta.reason = Some("task overlap 0.00 is below threshold 0.50".to_owned());
    let rendered = render_optimize_report(
        &report,
        scan(30, 0, 0),
        &OptimizationThresholds::default(),
        ".harness/traces",
        &delta,
    );
    assert!(rendered.contains("Reason: task overlap 0.00 is below threshold 0.50"));
    assert!(!rendered.contains("## Top Recommendations"));
}

#[test]
fn render_optimize_report_formats_deltas_with_signs() {
    let report = sample_report(vec![]);
    let mut delta = neutral_delta();
    delta.completion_delta = Ratio { num: 1, den: 2 };
    delta.token_delta_rel = Ratio { num: -1, den: 2 };
    let rendered = render_optimize_report(
        &report,
        scan(30, 0, 0),
        &OptimizationThresholds::default(),
        ".harness/traces",
        &delta,
    );
    assert!(rendered.contains("- task overlap: 1.00"));
    assert!(rendered.contains("completion delta: +0.500"));
    assert!(rendered.contains("token delta (rel): -0.500"));
}
