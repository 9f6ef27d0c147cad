//! The analyzer: converts signals into the five category scores, combines
//! them into an overall score, evaluates the finding predicates, and emits
//! the ranked recommendations.

use crate::config::{weights_spec, HarnessConfig};
use crate::report::{
    recs_sorted, unique_ids, Effort, Finding, HarnessReport, Impact, Recommendation, Risk,
};
use crate::scoring::{clamp_score, clamp_spec, ScoreCard};
use crate::signals::{DocSignals, QualitySignals, RepoModel, ToolSignals};
use crate::strutil::{join, join_spec, lemma_lex_lt_first_diff, lex_lt, views_of};
use vstd::prelude::*;
use vstd::seq_lib::group_to_multiset_ensures;

verus! {

broadcast use group_to_multiset_ensures;

/// The context score: fixed bonuses for each documentation signal, clamped.
pub open spec fn context_score_spec(d: DocSignals) -> int {
    clamp_spec(
        (if d.has_agents_md && d.agents_has_section_header {
            350int
        } else {
            0int
        }) + (if d.has_context_index {
            200int
        } else {
            0int
        }) + (if d.has_architecture_doc {
            150int
        } else {
            0int
        }) + (if d.readme_links_architecture {
            100int
        } else {
            0int
        }) + (if (match d.docs_age_days {
            Option::Some(v) => v < 90,
            Option::None => false,
        }) {
            200int
        } else {
            0int
        }),
    )
}

/// The tools score: fixed penalties for inventory size, overlap clusters,
/// destructive exposure and duplicates, clamped.
pub open spec fn tools_score_spec(t: &ToolSignals) -> int {
    clamp_spec(
        1000 - (if t.tool_names@.len() > 12 {
            100int
        } else {
            0int
        }) - t.risky_overlap_clusters * 50 - t.unrestricted_destructive * 200 - (
        if t.has_ambiguous_duplicates {
            150int
        } else {
            0int
        }),
    )
}

/// The continuity score: fixed bonuses for each continuity artifact.
pub open spec fn continuity_score_spec(c: crate::signals::ContinuitySignals) -> int {
    clamp_spec(
        (if c.has_initializer_prompt && c.has_coding_prompt {
            400int
        } else {
            0int
        }) + (if c.has_progress_file {
            250int
        } else {
            0int
        }) + (if c.has_feature_state_file {
            200int
        } else {
            0int
        }) + (if c.has_progress_summary {
            150int
        } else {
            0int
        }),
    )
}

/// The verification score: bonuses for required commands, the
/// pre-completion gate and the loop guard; zero without configuration.
pub open spec fn verification_score_spec(config: Option<&HarnessConfig>) -> int {
    clamp_spec(
        match config {
            Option::Some(c) => match c.verification {
                Option::Some(v) => (if v.required@.len() > 0 {
                    500int
                } else {
                    0int
                }) + (if v.pre_completion_required {
                    300int
                } else {
                    0int
                }) + (if v.loop_guard_enabled {
                    200int
                } else {
                    0int
                }),
                Option::None => 0,
            },
            Option::None => 0,
        },
    )
}

/// The repository-quality score: bonuses for CI, tests and lint
/// configuration.
pub open spec fn quality_score_spec(q: QualitySignals) -> int {
    clamp_spec(
        (if q.has_ci_workflow {
            400int
        } else {
            0int
        }) + (if q.has_tests {
            300int
        } else {
            0int
        }) + (if q.has_lint_config {
            300int
        } else {
            0int
        }),
    )
}

/// Scores documentation discoverability.
pub fn context_score(model: &RepoModel) -> (r: i64)
    ensures
        r == context_score_spec(model.docs),
{
    let mut score: i64 = 0;
    if model.docs.has_agents_md && model.docs.agents_has_section_header {
        score = score + 350;
    }
    if model.docs.has_context_index {
        score = score + 200;
    }
    if model.docs.has_architecture_doc {
        score = score + 150;
    }
    if model.docs.readme_links_architecture {
        score = score + 100;
    }
    let fresh = match model.docs.docs_age_days {
        Option::Some(days) => days < 90,
        Option::None => false,
    };
    if fresh {
        score = score + 200;
    }
    clamp_score(score)
}

/// Scores the safety of the tool surface.
pub fn tools_score(model: &RepoModel) -> (r: i64)
    ensures
        r == tools_score_spec(&model.tools),
{
    let mut score: i128 = 1000;
    if model.tools.tool_names.len() > 12 {
        score = score - 100;
    }
    score = score - model.tools.risky_overlap_clusters as i128 * 50;
    score = score - model.tools.unrestricted_destructive as i128 * 200;
    if model.tools.has_ambiguous_duplicates {
        score = score - 150;
    }
    if score < 0 {
        0
    } else if score > 1000 {
        1000
    } else {
        score as i64
    }
}

/// Scores continuity logging.
pub fn continuity_score(model: &RepoModel) -> (r: i64)
    ensures
        r == continuity_score_spec(model.continuity),
{
    let mut score: i64 = 0;
    if model.continuity.has_initializer_prompt && model.continuity.has_coding_prompt {
        score = score + 400;
    }
    if model.continuity.has_progress_file {
        score = score + 250;
    }
    if model.continuity.has_feature_state_file {
        score = score + 200;
    }
    if model.continuity.has_progress_summary {
        score = score + 150;
    }
    clamp_score(score)
}

/// Scores verification rigor.
pub fn verification_score(config: Option<&HarnessConfig>) -> (r: i64)
    ensures
        r == verification_score_spec(config),
{
    let mut score: i64 = 0;
    match config {
        Option::Some(c) => match &c.verification {
            Option::Some(v) => {
                if v.required.len() > 0 {
                    score = score + 500;
                }
                if v.pre_completion_required {
                    score = score + 300;
                }
                if v.loop_guard_enabled {
                    score = score + 200;
                }
            },
            Option::None => {},
        },
        Option::None => {},
    }
    clamp_score(score)
}

/// Scores general repository hygiene.
pub fn repository_quality_score(model: &RepoModel) -> (r: i64)
    ensures
        r == quality_score_spec(model.quality),
{
    let mut score: i64 = 0;
    if model.quality.has_ci_workflow {
        score = score + 400;
    }
    if model.quality.has_tests {
        score = score + 300;
    }
    if model.quality.has_lint_config {
        score = score + 300;
    }
    clamp_score(score)
}

// --- Findings ---------------------------------------------------------------

/// The ghost shape of a finding.
pub struct FindingModel {
    pub id: Seq<char>,
    pub title: Seq<char>,
    pub body: Seq<char>,
    pub blocking: bool,
    pub file: Option<Seq<char>>,
}

impl Finding {
    /// The ghost view of this finding.
    pub open spec fn model(self) -> FindingModel {
        FindingModel {
            id: self.id@,
            title: self.title@,
            body: self.body@,
            blocking: self.blocking,
            file: match self.file {
                Option::Some(f) => Some(f@),
                Option::None => None,
            },
        }
    }
}

/// The ghost views of a finding list.
pub open spec fn finding_models(s: Seq<Finding>) -> Seq<FindingModel> {
    s.map_values(|f: Finding| f.model())
}

/// The findings the analyzer emits, in evaluation order.
pub open spec fn expected_findings(model: &RepoModel, config: Option<&HarnessConfig>) -> Seq<
    FindingModel,
> {
    let agents: Seq<FindingModel> = if !model.docs.has_agents_md {
        seq![
            FindingModel {
                id: "context.missing_agents"@,
                title: "Missing AGENTS.md"@,
                body: "Repository is missing AGENTS.md; agent legibility is reduced."@,
                blocking: false,
                file: Some("AGENTS.md"@),
            },
        ]
    } else {
        Seq::empty()
    };
    let index: Seq<FindingModel> = if !model.docs.has_context_index {
        seq![
            FindingModel {
                id: "context.missing_index"@,
                title: "Missing docs context index"@,
                body: "docs/context/INDEX.md is missing, reducing navigability for agents."@,
                blocking: false,
                file: Some("docs/context/INDEX.md"@),
            },
        ]
    } else {
        Seq::empty()
    };
    let destructive: Seq<FindingModel> = if model.tools.unrestricted_destructive > 0 {
        seq![
            FindingModel {
                id: "tools.destructive_exposed"@,
                title: "Potentially destructive tools exposed"@,
                body: "Detected unrestricted destructive commands in tool inventory."@,
                blocking: true,
                file: Some("harness.toml"@),
            },
        ]
    } else {
        Seq::empty()
    };
    let lifecycle: Seq<FindingModel> = match config {
        Option::Some(c) => match c.tools {
            Option::Some(t) => match t.deprecated {
                Option::Some(d) => deprecation_findings(&d),
                Option::None => Seq::empty(),
            },
            Option::None => Seq::empty(),
        },
        Option::None => Seq::empty(),
    };
    let verification: Seq<FindingModel> = if config is Some && verification_score_spec(config)
        < 500 {
        seq![
            FindingModel {
                id: "verification.incomplete"@,
                title: "Verification policy incomplete"@,
                body: "Verification requirements are incomplete or missing pre-completion checks."@,
                blocking: true,
                file: Some("harness.toml"@),
            },
        ]
    } else if config is None {
        seq![
            FindingModel {
                id: "verification.missing_config"@,
                title: "Verification policy unavailable"@,
                body: "Verification checks cannot be evaluated because harness.toml is missing."@,
                blocking: false,
                file: Some("harness.toml"@),
            },
        ]
    } else {
        Seq::empty()
    };
    agents + index + destructive + lifecycle + verification
}

/// The findings of the tool deprecation lifecycle, one per nonempty stage.
pub open spec fn deprecation_findings(d: &crate::config::ToolDeprecated) -> Seq<FindingModel> {
    let observe: Seq<FindingModel> = if d.observe@.len() > 0 {
        seq![
            FindingModel {
                id: "tools.observe"@,
                title: "Observed tools scheduled for deprecation"@,
                body: "Observed tools are still allowed but tracked: "@ + join_spec(
                    views_of(d.observe@),
                    ", "@,
                ) + "."@,
                blocking: false,
                file: Some("harness.toml"@),
            },
        ]
    } else {
        Seq::empty()
    };
    let deprecated: Seq<FindingModel> = if d.deprecated@.len() > 0 {
        seq![
            FindingModel {
                id: "tools.deprecated"@,
                title: "Deprecated tools still enabled"@,
                body: "Deprecated tools should be migrated off active workflows: "@ + join_spec(
                    views_of(d.deprecated@),
                    ", "@,
                ) + "."@,
                blocking: true,
                file: Some("harness.toml"@),
            },
        ]
    } else {
        Seq::empty()
    };
    let disabled: Seq<FindingModel> = if d.disabled@.len() > 0 {
        seq![
            FindingModel {
                id: "tools.disabled"@,
                title: "Disabled tools are configured"@,
                body: "Disabled tools are forbidden on apply and must not be used: "@ + join_spec(
                    views_of(d.disabled@),
                    ", "@,
                ) + "."@,
                blocking: true,
                file: Some("harness.toml"@),
            },
        ]
    } else {
        Seq::empty()
    };
    observe + deprecated + disabled
}

// --- Recommendations --------------------------------------------------------

/// The ghost shape of a recommendation.
pub struct RecModel {
    pub id: Seq<char>,
    pub title: Seq<char>,
    pub summary: Seq<char>,
    pub impact: Impact,
    pub effort: Effort,
    pub risk: Risk,
    pub confidence: int,
}

impl Recommendation {
    /// The ghost view of this recommendation.
    pub open spec fn model(self) -> RecModel {
        RecModel {
            id: self.id@,
            title: self.title@,
            summary: self.summary@,
            impact: self.impact,
            effort: self.effort,
            risk: self.risk,
            confidence: self.confidence as int,
        }
    }
}

/// The ghost views of a recommendation list.
pub open spec fn rec_models(s: Seq<Recommendation>) -> Seq<RecModel> {
    s.map_values(|r: Recommendation| r.model())
}

/// The context-index recommendation.
pub open spec fn rec_context_index() -> RecModel {
    RecModel {
        id: "rec.context.index"@,
        title: "Add Context Index"@,
        summary: "Create docs/context/INDEX.md and link it from AGENTS.md."@,
        impact: Impact::High,
        effort: Effort::S,
        risk: Risk::Safe,
        confidence: 920,
    }
}

/// The verification-gate recommendation.
pub open spec fn rec_verification_gate() -> RecModel {
    RecModel {
        id: "rec.verification.gate"@,
        title: "Enable Verification Gate"@,
        summary: "Set pre_completion_required and provide required verification commands."@,
        impact: Impact::High,
        effort: Effort::S,
        risk: Risk::Medium,
        confidence: 880,
    }
}

/// The tool-pruning recommendation.
pub open spec fn rec_tools_prune() -> RecModel {
    RecModel {
        id: "rec.tools.prune"@,
        title: "Prune Redundant Tools"@,
        summary: "Reduce overlap in grep/find-style tool clusters and remove risky commands."@,
        impact: Impact::Medium,
        effort: Effort::M,
        risk: Risk::Medium,
        confidence: 840,
    }
}

/// The small-repository documentation recommendation.
pub open spec fn rec_repo_scale() -> RecModel {
    RecModel {
        id: "rec.repo.scale"@,
        title: "Document Repository Scale"@,
        summary: "Add lightweight architecture notes to support agent understanding in small repos."@,
        impact: Impact::Low,
        effort: Effort::Xs,
        risk: Risk::Safe,
        confidence: 600,
    }
}

/// The recommendations the analyzer emits, already in ranking order.
pub open spec fn expected_recs(file_count: int) -> Seq<RecModel> {
    seq![rec_context_index(), rec_verification_gate(), rec_tools_prune()] + (if file_count < 20 {
        seq![rec_repo_scale()]
    } else {
        Seq::empty()
    })
}

/// The five resolved weights feeding the overall score.
pub open spec fn resolved_weights(config: Option<&HarnessConfig>) -> Seq<int> {
    match config {
        Option::Some(c) => weights_spec(c),
        Option::None => seq![300int, 250int, 200int, 150int, 100int],
    }
}

/// Analyzes a repository model under an optional configuration: scores the
/// five categories, weights them into the overall score, evaluates the
/// finding predicates in order, and emits the ranked recommendations.
#[verifier::rlimit(80)]
pub fn analyze(model: &RepoModel, config: Option<&HarnessConfig>) -> (r: HarnessReport)
    requires
        0 <= resolved_weights(config)[0] <= 1000,
        0 <= resolved_weights(config)[1] <= 1000,
        0 <= resolved_weights(config)[2] <= 1000,
        0 <= resolved_weights(config)[3] <= 1000,
        0 <= resolved_weights(config)[4] <= 1000,
    ensures
        r.category_scores.context == context_score_spec(model.docs),
        r.category_scores.tools == tools_score_spec(&model.tools),
        r.category_scores.continuity == continuity_score_spec(model.continuity),
        r.category_scores.verification == verification_score_spec(config),
        r.category_scores.repository_quality == quality_score_spec(model.quality),
        r.category_scores.overall == (context_score_spec(model.docs) * resolved_weights(config)[0]
            + tools_score_spec(&model.tools) * resolved_weights(config)[1] + continuity_score_spec(
            model.continuity,
        ) * resolved_weights(config)[2] + verification_score_spec(config) * resolved_weights(
            config,
        )[3] + quality_score_spec(model.quality) * resolved_weights(config)[4]) / 1000,
        r.overall_score == r.category_scores.overall,
        finding_models(r.findings@) == expected_findings(model, config),
        rec_models(r.recommendations@) == expected_recs(model.file_count as int),
        recs_sorted(r.recommendations@),
{
    let context = context_score(model);
    let tools = tools_score(model);
    let continuity = continuity_score(model);
    let verification = verification_score(config);
    let repository_quality = repository_quality_score(model);
    let weights: [i64; 5] = match config {
        Option::Some(c) => c.weights(),
        Option::None => HarnessConfig::default_weights(),
    };
    let card = ScoreCard::new(context, tools, continuity, verification, repository_quality);
    let card = card.finalize(&weights);
    let findings = build_findings(model, config);
    let recommendations = build_recommendations(model.file_count);
    let overall = card.overall;
    HarnessReport { overall_score: overall, category_scores: card, findings, recommendations }
}

#[verifier::rlimit(100)]
fn build_findings(model: &RepoModel, config: Option<&HarnessConfig>) -> (r: Vec<Finding>)
    ensures
        finding_models(r@) == expected_findings(model, config),
{
    let mut findings: Vec<Finding> = Vec::new();
    if !model.docs.has_agents_md {
        findings.push(
            Finding {
                id: "context.missing_agents".to_owned(),
                title: "Missing AGENTS.md".to_owned(),
                body: "Repository is missing AGENTS.md; agent legibility is reduced.".to_owned(),
                blocking: false,
                file: Some("AGENTS.md".to_owned()),
            },
        );
    }
    if !model.docs.has_context_index {
        findings.push(
            Finding {
                id: "context.missing_index".to_owned(),
                title: "Missing docs context index".to_owned(),
                body: "docs/context/INDEX.md is missing, reducing navigability for agents.".to_owned(),
                blocking: false,
                file: Some("docs/context/INDEX.md".to_owned()),
            },
        );
    }
    if model.tools.unrestricted_destructive > 0 {
        findings.push(
            Finding {
                id: "tools.destructive_exposed".to_owned(),
                title: "Potentially destructive tools exposed".to_owned(),
                body: "Detected unrestricted destructive commands in tool inventory.".to_owned(),
                blocking: true,
                file: Some("harness.toml".to_owned()),
            },
        );
    }
    let ghost head = finding_models(findings@);
    match config {
        Option::Some(c) => match &c.tools {
            Option::Some(t) => match &t.deprecated {
                Option::Some(d) => {
                    if d.observe.len() > 0 {
                        let joined = join(&d.observe, ", ");
                        let mut body = String::new();
                        body.append("Observed tools are still allowed but tracked: ");
                        body.append(joined.as_str());
                        body.append(".");
                        assert(body@ =~= "Observed tools are still allowed but tracked: "@
                            + join_spec(views_of(d.observe@), ", "@) + "."@);
                        findings.push(
                            Finding {
                                id: "tools.observe".to_owned(),
                                title: "Observed tools scheduled for deprecation".to_owned(),
                                body,
                                blocking: false,
                                file: Some("harness.toml".to_owned()),
                            },
                        );
                    }
                    if d.deprecated.len() > 0 {
                        let joined = join(&d.deprecated, ", ");
                        let mut body = String::new();
                        body.append("Deprecated tools should be migrated off active workflows: ");
                        body.append(joined.as_str());
                        body.append(".");
                        assert(body@ =~= "Deprecated tools should be migrated off active workflows: "@
                            + join_spec(views_of(d.deprecated@), ", "@) + "."@);
                        findings.push(
                            Finding {
                                id: "tools.deprecated".to_owned(),
                                title: "Deprecated tools still enabled".to_owned(),
                                body,
                                blocking: true,
                                file: Some("harness.toml".to_owned()),
                            },
                        );
                    }
                    if d.disabled.len() > 0 {
                        let joined = join(&d.disabled, ", ");
                        let mut body = String::new();
                        body.append("Disabled tools are forbidden on apply and must not be used: ");
                        body.append(joined.as_str());
                        body.append(".");
                        assert(body@ =~= "Disabled tools are forbidden on apply and must not be used: "@
                            + join_spec(views_of(d.disabled@), ", "@) + "."@);
                        findings.push(
                            Finding {
                                id: "tools.disabled".to_owned(),
                                title: "Disabled tools are configured".to_owned(),
                                body,
                                blocking: true,
                                file: Some("harness.toml".to_owned()),
                            },
                        );
                    }
                },
                Option::None => {},
            },
            Option::None => {},
        },
        Option::None => {},
    }
    let ghost mid = finding_models(findings@);
    proof {
        let lifecycle: Seq<FindingModel> = match config {
            Option::Some(c) => match &c.tools {
                Option::Some(t) => match &t.deprecated {
                    Option::Some(d) => deprecation_findings(d),
                    Option::None => Seq::empty(),
                },
                Option::None => Seq::empty(),
            },
            Option::None => Seq::empty(),
        };
        assert(mid =~= head + lifecycle);
    }
    let vscore = verification_score(config);
    match config {
        Option::Some(_) => {
            if vscore < 500 {
                findings.push(
                    Finding {
                        id: "verification.incomplete".to_owned(),
                        title: "Verification policy incomplete".to_owned(),
                        body: "Verification requirements are incomplete or missing pre-completion checks.".to_owned(),
                        blocking: true,
                        file: Some("harness.toml".to_owned()),
                    },
                );
            }
        },
        Option::None => {
            findings.push(
                Finding {
                    id: "verification.missing_config".to_owned(),
                    title: "Verification policy unavailable".to_owned(),
                    body: "Verification checks cannot be evaluated because harness.toml is missing.".to_owned(),
                    blocking: false,
                    file: Some("harness.toml".to_owned()),
                },
            );
        },
    }
    proof {
        assert(finding_models(findings@) =~= expected_findings(model, config));
    }
    findings
}

fn build_recommendations(file_count: usize) -> (r: Vec<Recommendation>)
    ensures
        rec_models(r@) == expected_recs(file_count as int),
        recs_sorted(r@),
{
    let mut recs: Vec<Recommendation> = Vec::new();
    recs.push(
        Recommendation::new(
            "rec.context.index".to_owned(),
            "Add Context Index".to_owned(),
            "Create docs/context/INDEX.md and link it from AGENTS.md.".to_owned(),
            Impact::High,
            Effort::S,
            Risk::Safe,
            920,
        ),
    );
    recs.push(
        Recommendation::new(
            "rec.verification.gate".to_owned(),
            "Enable Verification Gate".to_owned(),
            "Set pre_completion_required and provide required verification commands.".to_owned(),
            Impact::High,
            Effort::S,
            Risk::Medium,
            880,
        ),
    );
    recs.push(
        Recommendation::new(
            "rec.tools.prune".to_owned(),
            "Prune Redundant Tools".to_owned(),
            "Reduce overlap in grep/find-style tool clusters and remove risky commands.".to_owned(),
            Impact::Medium,
            Effort::M,
            Risk::Medium,
            840,
        ),
    );
    if file_count < 20 {
        recs.push(
            Recommendation::new(
                "rec.repo.scale".to_owned(),
                "Document Repository Scale".to_owned(),
                "Add lightweight architecture notes to support agent understanding in small repos.".to_owned(),
                Impact::Low,
                Effort::Xs,
                Risk::Safe,
                600,
            ),
        );
    }
    let ghost base = recs@;
    proof {
        assert(rec_models(base) =~= expected_recs(file_count as int));
        lemma_expected_order(base, file_count as int);
    }
    let sorted = crate::report::sort_recs(recs);
    proof {
        crate::report::lemma_ranking_deterministic(base, sorted@);
        assert(rec_models(sorted@) =~= expected_recs(file_count as int));
    }
    sorted
}

/// The emitted recommendation list is already in ranking order with unique
/// identifiers.
proof fn lemma_expected_order(base: Seq<Recommendation>, file_count: int)
    requires
        rec_models(base) == expected_recs(file_count),
    ensures
        recs_sorted(base),
        unique_ids(base),
{
    reveal_strlit("rec.context.index");
    reveal_strlit("rec.verification.gate");
    reveal_strlit("rec.tools.prune");
    reveal_strlit("rec.repo.scale");
    let a = "rec.verification.gate"@;
    let b = "rec.context.index"@;
    assert(a.len() == 21 && b.len() == 17);
    assert("rec.tools.prune"@.len() == 15);
    assert("rec.repo.scale"@.len() == 14);
    assert(forall|j: int| 0 <= j < 4 ==> a[j] == b[j]);
    assert(a[4] == 'v' && b[4] == 'c');
    lemma_lex_lt_first_diff(a, b, 4);
    assert(!lex_lt(a, b));
    let ex = expected_recs(file_count);
    assert(base.len() == rec_models(base).len());
    assert(ex[0] == rec_context_index());
    assert(ex[1] == rec_verification_gate());
    assert(ex[2] == rec_tools_prune());
    if file_count < 20 {
        assert(ex.len() == 4);
        assert(ex[3] == rec_repo_scale());
    } else {
        assert(ex.len() == 3);
    }
    assert(forall|i: int| 0 <= i < base.len() ==> #[trigger] rec_models(base)[i] == base[i].model());
    assert forall|i: int, j: int| 0 <= i < j < base.len() implies crate::report::rec_le(
        #[trigger] base[i],
        #[trigger] base[j],
    ) by {
        assert(rec_models(base)[i] == ex[i]);
        assert(rec_models(base)[j] == ex[j]);
        assert(base[i].model() == ex[i]);
        assert(base[j].model() == ex[j]);
    }
    assert forall|i: int, j: int| 0 <= i < j < base.len() implies (#[trigger] base[i]).id@ != (
    #[trigger] base[j]).id@ by {
        assert(rec_models(base)[i] == ex[i]);
        assert(rec_models(base)[j] == ex[j]);
        assert(base[i].model() == ex[i]);
        assert(base[j].model() == ex[j]);
    }
}

/// The findings alone, for the lint command.
pub fn lint_findings(model: &RepoModel, config: Option<&HarnessConfig>) -> (r: Vec<Finding>)
    requires
        0 <= resolved_weights(config)[0] <= 1000,
        0 <= resolved_weights(config)[1] <= 1000,
        0 <= resolved_weights(config)[2] <= 1000,
        0 <= resolved_weights(config)[3] <= 1000,
        0 <= resolved_weights(config)[4] <= 1000,
    ensures
        finding_models(r@) == expected_findings(model, config),
{
    let report = analyze(model, config);
    report.findings
}

} // verus!
