use harness::{
    HarnessConfig, HarnessError, MetricsConfig, OptimizationConfig, OptimizationThresholds,
    ProjectConfig, ToolDeprecated, ToolsConfig, VerificationConfig,
};

fn project(profile: &str) -> ProjectConfig {
    ProjectConfig {
        name: "test".to_owned(),
        profile: profile.to_owned(),
        language: None,
        main_branch: "main".to_owned(),
    }
}

fn bare_config() -> HarnessConfig {
    HarnessConfig {
        project: project("general"),
        context: None,
        tools: None,
        verification: None,
        continuity: None,
        metrics: None,
        optimization: None,
        workflow: None,
    }
}

fn weight_pairs(pairs: Vec<(&str, i64)>) -> Vec<(String, i64)> {
    pairs.into_iter().map(|(k, v)| (k.to_owned(), v)).collect()
}

fn deprecated_config(td: ToolDeprecated) -> HarnessConfig {
    let mut cfg = bare_config();
    cfg.tools = Some(ToolsConfig {
        baseline: None,
        specialized: None,
        deprecated: Some(td),
        aliases: None,
    });
    cfg
}

fn owned(names: Vec<&str>) -> Vec<String> {
    names.into_iter().map(|s| s.to_owned()).collect()
}

#[test]
fn default_weights_sum_to_one() {
    let cfg = bare_config();
    let weights = cfg.weights();
    let sum: i64 = weights.iter().sum();
    assert_eq!(sum, 1000);
}

#[test]
fn validate_rejects_invalid_weight_sum() {
    let mut cfg = bare_config();
    cfg.metrics = Some(MetricsConfig {
        weights: Some(weight_pairs(vec![
            ("context", 900),
            ("tools", 900),
            ("continuity", 100),
            ("verification", 100),
            ("repository_quality", 100),
        ])),
        max_risk_tolerance: None,
        max_penalty_per_bucket: None,
    });
    assert!(cfg.validate().is_err());
}

#[test]
fn validate_rejects_pre_completion_without_required() {
    let mut cfg = bare_config();
    cfg.verification = Some(VerificationConfig {
        required: vec![],
        pre_completion_required: true,
        loop_guard_enabled: false,
    });
    assert!(cfg.validate().is_err());
}

#[test]
fn validate_accepts_valid_config() {
    let mut cfg = bare_config();
    cfg.metrics = Some(MetricsConfig {
        weights: None,
        max_risk_tolerance: Some(500),
        max_penalty_per_bucket: Some(400),
    });
    cfg.verification = Some(VerificationConfig {
        required: owned(vec!["cargo test"]),
        pre_completion_required: true,
        loop_guard_enabled: false,
    });
    assert!(cfg.validate().is_ok());
}

#[test]
fn optimization_thresholds_default_when_missing() {
    let cfg = bare_config();
    let thresholds = cfg.optimization_thresholds();
    assert_eq!(
        thresholds,
        OptimizationThresholds {
            min_traces: 30,
            min_uplift_abs: 50,
            min_uplift_rel: 100,
            trace_staleness_days: 90,
            task_overlap_threshold: 500,
        }
    );
}

#[test]
fn optimization_thresholds_parse_and_override_defaults() {
    let mut cfg = bare_config();
    cfg.optimization = Some(OptimizationConfig {
        min_traces: Some(50),
        min_uplift_abs: Some(80),
        min_uplift_rel: Some(120),
        trace_staleness_days: Some(30),
        task_overlap_threshold: Some(750),
    });
    let thresholds = cfg.optimization_thresholds();
    assert_eq!(
        thresholds,
        OptimizationThresholds {
            min_traces: 50,
            min_uplift_abs: 80,
            min_uplift_rel: 120,
            trace_staleness_days: 30,
            task_overlap_threshold: 750,
        }
    );
}

#[test]
fn validate_rejects_invalid_optimization_thresholds() {
    let mut cfg = bare_config();
    cfg.optimization = Some(OptimizationConfig {
        min_traces: Some(0),
        min_uplift_abs: None,
        min_uplift_rel: None,
        trace_staleness_days: None,
        task_overlap_threshold: None,
    });
    let err = cfg.validate().expect_err("validation should fail");
    assert!(err
        .message()
        .contains("optimization.min_traces must be greater than 0"));
}

#[test]
fn validate_rejects_unknown_metrics_weight_keys() {
    let mut cfg = bare_config();
    cfg.metrics = Some(MetricsConfig {
        weights: Some(weight_pairs(vec![
            ("context", 300),
            ("tools", 250),
            ("continuity", 200),
            ("verification", 150),
            ("repository_quality", 100),
            ("unknown_bucket", 10),
        ])),
        max_risk_tolerance: None,
        max_penalty_per_bucket: None,
    });
    let err = cfg.validate().expect_err("validation should fail");
    let rendered = err.message();
    assert!(rendered.contains("unknown key"));
    assert!(rendered.contains("unknown_bucket"));
}

#[test]
fn validate_rejects_invalid_project_profile() {
    let mut cfg = bare_config();
    cfg.project = project("ops");
    let err = cfg.validate().expect_err("validation should fail");
    assert!(err.message().contains("unsupported project.profile"));
}

#[test]
fn validate_accepts_metric_boundaries() {
    let mut cfg = bare_config();
    cfg.metrics = Some(MetricsConfig {
        weights: None,
        max_risk_tolerance: Some(1000),
        max_penalty_per_bucket: Some(0),
    });
    assert!(cfg.validate().is_ok());
}

#[test]
fn validate_rejects_tool_in_multiple_deprecation_stages() {
    let cfg = deprecated_config(ToolDeprecated {
        observe: owned(vec!["grep"]),
        deprecated: owned(vec!["grep"]),
        disabled: vec![],
    });
    let err = cfg.validate().expect_err("validation should fail");
    let rendered = err.message();
    assert!(rendered.contains("cannot appear in both"));
    assert!(rendered.contains("tools.deprecated.observe"));
    assert!(rendered.contains("tools.deprecated.deprecated"));
}

#[test]
fn validate_rejects_empty_deprecation_entry() {
    let cfg = deprecated_config(ToolDeprecated {
        observe: owned(vec![" "]),
        deprecated: vec![],
        disabled: vec![],
    });
    let err = cfg.validate().expect_err("validation should fail");
    assert!(err.message().contains("must be non-empty command names"));
}

#[test]
fn validate_accepts_distinct_deprecation_stages() {
    let cfg = deprecated_config(ToolDeprecated {
        observe: owned(vec!["find"]),
        deprecated: owned(vec!["grep"]),
        disabled: owned(vec!["apply_patch"]),
    });
    assert!(cfg.validate().is_ok());
}

#[test]
fn validate_rejects_duplicate_within_one_stage() {
    let cfg = deprecated_config(ToolDeprecated {
        observe: owned(vec!["grep", "grep"]),
        deprecated: vec![],
        disabled: vec![],
    });
    let err = cfg.validate().expect_err("validation should fail");
    assert!(err.message().contains("contains duplicate tool: grep"));
}

#[test]
fn validate_weight_sum_error_shows_the_sum() {
    let mut cfg = bare_config();
    cfg.metrics = Some(MetricsConfig {
        weights: Some(weight_pairs(vec![("context", 100)])),
        max_risk_tolerance: None,
        max_penalty_per_bucket: None,
    });
    // context overridden to 0.1; the other four keep their defaults,
    // so the sum is 0.8.
    let err = cfg.validate().expect_err("validation should fail");
    assert_eq!(
        err.message(),
        "config parse error: metrics.weights must sum to 1.0 (found 0.800)"
    );
}
