use harness::{
    analyze, detect_tools, lint_findings, validate_with_config, ContinuitySignals, DocSignals,
    HarnessConfig, HarnessError, ProjectConfig, QualitySignals, RepoModel, ToolBaseline,
    ToolDeprecated, ToolSignals, ToolSpecialized, ToolsConfig,
};

fn base_model() -> RepoModel {
    RepoModel {
        file_count: 100,
        docs: DocSignals {
            has_agents_md: true,
            agents_has_section_header: true,
            has_context_index: true,
            has_architecture_doc: true,
            readme_links_architecture: true,
            docs_age_days: Some(1),
        },
        tools: ToolSignals::default(),
        continuity: ContinuitySignals::default(),
        quality: QualitySignals::default(),
    }
}

fn bare_config() -> HarnessConfig {
    HarnessConfig {
        project: ProjectConfig {
            name: "sample".to_owned(),
            profile: "general".to_owned(),
            language: None,
            main_branch: "main".to_owned(),
        },
        context: None,
        tools: None,
        verification: None,
        continuity: None,
        metrics: None,
        optimization: None,
        workflow: None,
    }
}

fn owned(names: Vec<&str>) -> Vec<String> {
    names.into_iter().map(|s| s.to_owned()).collect()
}

#[test]
fn analyze_generates_warning_when_config_is_missing() {
    let model = base_model();

    let report = analyze(&model, None);
    assert!(report
        .findings
        .iter()
        .any(|finding| finding.id == "verification.missing_config" && !finding.blocking));
    assert!((0..=1000).contains(&report.overall_score));
}

#[test]
fn analyze_emits_deprecation_lifecycle_findings() {
    let model = base_model();
    let mut config = bare_config();
    config.tools = Some(ToolsConfig {
        baseline: None,
        specialized: None,
        deprecated: Some(ToolDeprecated {
            observe: owned(vec!["find"]),
            deprecated: owned(vec!["grep"]),
            disabled: owned(vec!["apply_patch"]),
        }),
        aliases: None,
    });

    let report = analyze(&model, Some(&config));
    assert!(report
        .findings
        .iter()
        .any(|finding| finding.id == "tools.observe" && !finding.blocking));
    assert!(report
        .findings
        .iter()
        .any(|finding| finding.id == "tools.deprecated" && finding.blocking));
    assert!(report
        .findings
        .iter()
        .any(|finding| finding.id == "tools.disabled" && finding.blocking));
}

#[test]
fn analyze_scores_a_fully_documented_repo_exactly() {
    let model = base_model();
    let report = analyze(&model, None);
    assert_eq!(report.category_scores.context, 1000);
    assert_eq!(report.category_scores.tools, 1000);
    assert_eq!(report.category_scores.continuity, 0);
    assert_eq!(report.category_scores.verification, 0);
    assert_eq!(report.category_scores.repository_quality, 0);
    // 1.0*0.30 + 1.0*0.25 = 0.55
    assert_eq!(report.overall_score, 550);
}

#[test]
fn analyze_ranks_recommendations_in_priority_order() {
    let model = base_model();
    let report = analyze(&model, None);
    let ids: Vec<String> = report.recommendations.iter().map(|r| r.id.clone()).collect();
    assert_eq!(
        ids,
        vec![
            "rec.context.index".to_owned(),
            "rec.verification.gate".to_owned(),
            "rec.tools.prune".to_owned(),
        ]
    );
}

#[test]
fn analyze_suggests_scale_notes_for_small_repos() {
    let mut model = base_model();
    model.file_count = 5;
    let report = analyze(&model, None);
    let ids: Vec<String> = report.recommendations.iter().map(|r| r.id.clone()).collect();
    assert_eq!(ids.last().map(String::as_str), Some("rec.repo.scale"));
}

#[test]
fn test_lint_includes_missing_context_findings() {
    let mut model = base_model();
    model.docs.has_agents_md = false;
    model.docs.has_context_index = false;

    let findings = lint_findings(&model, None);
    assert!(findings
        .iter()
        .any(|finding| finding.id == "context.missing_agents"));
    assert!(findings
        .iter()
        .any(|finding| finding.id == "context.missing_index"));
}

#[test]
fn test_lint_reports_blocking_for_destructive_tools() {
    let mut model = base_model();
    model.tools.unrestricted_destructive = 1;

    let findings = lint_findings(&model, None);
    assert!(findings
        .iter()
        .any(|finding| finding.id == "tools.destructive_exposed" && finding.blocking));
}

#[test]
fn test_validate_with_config_rejects_alias_to_forbidden_command() {
    let mut cfg = bare_config();
    cfg.tools = Some(ToolsConfig {
        baseline: Some(ToolBaseline {
            read: vec![],
            write: vec![],
            forbidden: owned(vec!["git push --force"]),
        }),
        specialized: None,
        deprecated: None,
        aliases: Some(vec![("gpf".to_owned(), "git push --force".to_owned())]),
    });

    let commands = owned(vec!["gpf origin main"]);
    let result = validate_with_config(&commands, 0, Some(&cfg));
    assert!(matches!(result, Err(HarnessError::ForbiddenToolAccess(_))));
}

#[test]
fn test_validate_with_config_rejects_disabled_tool_command() {
    let mut cfg = bare_config();
    cfg.tools = Some(ToolsConfig {
        baseline: None,
        specialized: None,
        deprecated: Some(ToolDeprecated {
            observe: vec![],
            deprecated: vec![],
            disabled: owned(vec!["apply_patch"]),
        }),
        aliases: None,
    });

    let commands = owned(vec!["apply_patch"]);
    let result = validate_with_config(&commands, 0, Some(&cfg));
    assert!(matches!(result, Err(HarnessError::ForbiddenToolAccess(_))));
}

#[test]
fn test_validate_with_config_allows_deprecated_tool_command() {
    let mut cfg = bare_config();
    cfg.tools = Some(ToolsConfig {
        baseline: None,
        specialized: None,
        deprecated: Some(ToolDeprecated {
            observe: vec![],
            deprecated: owned(vec!["apply_patch"]),
            disabled: vec![],
        }),
        aliases: None,
    });

    let commands = owned(vec!["apply_patch"]);
    let result = validate_with_config(&commands, 0, Some(&cfg));
    assert!(result.is_ok());
}

#[test]
fn detect_tools_uses_defaults_when_missing_config() {
    let signals = detect_tools(None);
    assert!(signals.tool_names.contains(&"bash".to_owned()));
    assert!(!signals.tool_names.is_empty());
}

#[test]
fn detect_tools_lowercases_and_finds_duplicates() {
    let mut cfg = bare_config();
    cfg.tools = Some(ToolsConfig {
        baseline: Some(ToolBaseline {
            read: owned(vec!["RG", " rg "]),
            write: vec![],
            forbidden: vec![],
        }),
        specialized: None,
        deprecated: None,
        aliases: None,
    });
    let signals = detect_tools(Some(&cfg));
    assert_eq!(signals.tool_names, owned(vec!["rg", "rg"]));
    assert!(signals.has_ambiguous_duplicates);
}

#[test]
fn detect_tools_counts_overlap_and_destructive() {
    let mut cfg = bare_config();
    cfg.tools = Some(ToolsConfig {
        baseline: Some(ToolBaseline {
            read: owned(vec!["rg", "grep", "find"]),
            write: owned(vec!["rm"]),
            forbidden: vec![],
        }),
        specialized: Some(ToolSpecialized {
            extra: owned(vec!["fd", "sudo"]),
        }),
        deprecated: None,
        aliases: None,
    });
    let signals = detect_tools(Some(&cfg));
    assert_eq!(signals.risky_overlap_clusters, 2);
    assert_eq!(signals.unrestricted_destructive, 2);
    assert!(!signals.has_ambiguous_duplicates);
}
