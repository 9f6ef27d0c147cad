//! A decision engine for judging how legible a software repository is to
//! automated coding agents.
//!
//! The crate covers three subsystems: category scoring with ranked
//! recommendations, a command-policy guardrail (forbidden-command matching
//! with alias resolution and a loop guard), and an optimization delta
//! classifier that compares run telemetry across two revisions.  Scores,
//! weights and thresholds are proportions carried as integers in units of
//! 1/1000, so every computation here is exact.

mod analyze;
mod bench;
mod config;
mod continuity;
mod delta;
mod error;
mod guardrails;
mod plan;
mod render;
mod report;
mod scoring;
mod signals;
mod strutil;

pub use analyze::{
    analyze, context_score, continuity_score, lint_findings, repository_quality_score,
    tools_score, verification_score,
};
pub use bench::{average_overall_score, validate_bench_compare_compatibility, BenchContext,
    BenchRunResult};
pub use config::{
    ContextConfig, ContinuityConfig, HarnessConfig, LogSampling, MetricsConfig,
    OptimizationConfig, ProjectConfig, ToolBaseline, ToolDeprecated, ToolSpecialized, ToolsConfig,
    VerificationConfig, WorkflowConfig,
};
pub use continuity::{resolve_path, resolve_settings, should_record_progress,
    ContinuitySettings, SamplingMode};
pub use delta::{
    compute_optimize_delta, compute_task_overlap, relative_delta, screen_traces,
    OptimizationThresholds, OptimizeDelta, OptimizeDeltaStatus, Ratio, RawTraceLine,
    TraceRecord, TraceScanStats,
};
pub use error::HarnessError;
pub use guardrails::{
    default_forbids, detect_loop, detect_loop_with_threshold, is_forbidden,
    is_forbidden_with_policy, policy_from_config, validate, validate_commands,
    validate_with_config, CommandPolicy,
};
pub use plan::{build_changes, validate_plan_path, ChangeAction, PlannedChange};
pub use render::{render_optimize_report, to_markdown};
pub use report::{
    lemma_ranking_deterministic, lemma_ranking_impact_monotone, rec_le, recs_sorted, sort_recs,
    unique_ids, Effort, Finding, HarnessReport, Impact, Recommendation, Risk,
};
pub use scoring::{
    clamp_score, lemma_clamp_in_range, lemma_overall_extremes, lemma_overall_in_range,
    CategoryScoreBuilder, Score, ScoreCard, SCORE_SCALE,
};
pub use signals::{
    detect_tools, normalize_tool_list, quality_signals, ContinuitySignals, DocSignals,
    QualitySignals, RepoModel, ToolSignals,
};
pub use strutil::{tokenize, tokens_of};
