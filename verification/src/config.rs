//! The configuration model: project identity, tool inventory, verification
//! requirements, continuity settings, metric weights and optimization
//! thresholds.  Weights and tolerances are proportions in thousandths.
//! Loading and layered merging of configuration files is a collaborator's
//! job; this module owns the semantic checks.

use crate::delta::OptimizationThresholds;
use crate::error::HarnessError;
use crate::strutil::{
    join, join_spec, thousandths_spec, thousandths_to_string, trim, trim_spec, views_of,
};
use vstd::prelude::*;

verus! {

/// Project identity.
pub struct ProjectConfig {
    pub name: String,
    pub profile: String,
    pub language: Option<String>,
    pub main_branch: String,
}

/// Where the context documents live.
pub struct ContextConfig {
    pub agents_map: Option<String>,
    pub context_index: Option<String>,
    pub doc_map_required: bool,
}

/// The baseline tool inventory.
pub struct ToolBaseline {
    pub read: Vec<String>,
    pub write: Vec<String>,
    pub forbidden: Vec<String>,
}

/// Extra specialized tools.
pub struct ToolSpecialized {
    pub extra: Vec<String>,
}

/// The tool deprecation lifecycle: observed, deprecated, and disabled
/// tools.
pub struct ToolDeprecated {
    pub observe: Vec<String>,
    pub deprecated: Vec<String>,
    pub disabled: Vec<String>,
}

/// Tool configuration: inventory, lifecycle and command aliases.
pub struct ToolsConfig {
    pub baseline: Option<ToolBaseline>,
    pub specialized: Option<ToolSpecialized>,
    pub deprecated: Option<ToolDeprecated>,
    pub aliases: Option<Vec<(String, String)>>,
}

/// Verification requirements.
pub struct VerificationConfig {
    pub required: Vec<String>,
    pub pre_completion_required: bool,
    pub loop_guard_enabled: bool,
}

/// How densely continuity progress is logged: every milestone, every
/// event, or nothing.
pub enum LogSampling {
    Milestones,
    All,
    Off,
}

/// Continuity logging settings.
pub struct ContinuityConfig {
    pub initializer: Option<String>,
    pub coding_prompt: Option<String>,
    pub progress_file: Option<String>,
    pub feature_state_file: Option<String>,
    pub state_schema_version: Option<u32>,
    pub log_sampling: Option<LogSampling>,
    pub batch_interval_secs: Option<u32>,
    pub max_log_size_kb: Option<u32>,
    pub retained_logs: Option<u32>,
}

/// Metric weights and tolerances, in thousandths.
pub struct MetricsConfig {
    pub weights: Option<Vec<(String, i64)>>,
    pub max_risk_tolerance: Option<i64>,
    pub max_penalty_per_bucket: Option<i64>,
}

/// Optimization thresholds, proportions in thousandths.
pub struct OptimizationConfig {
    pub min_traces: Option<u32>,
    pub min_uplift_abs: Option<u32>,
    pub min_uplift_rel: Option<u32>,
    pub trace_staleness_days: Option<u32>,
    pub task_overlap_threshold: Option<u32>,
}

/// Workflow limits.
pub struct WorkflowConfig {
    pub max_consecutive_failures: Option<u32>,
    pub max_idle_steps: Option<u32>,
    pub replan_on_loop: bool,
}

/// The whole configuration.
pub struct HarnessConfig {
    pub project: ProjectConfig,
    pub context: Option<ContextConfig>,
    pub tools: Option<ToolsConfig>,
    pub verification: Option<VerificationConfig>,
    pub continuity: Option<ContinuityConfig>,
    pub metrics: Option<MetricsConfig>,
    pub optimization: Option<OptimizationConfig>,
    pub workflow: Option<WorkflowConfig>,
}

/// The value bound to a weight key: the first matching entry, or the
/// default when the key is absent.
pub open spec fn weight_val(pairs: Seq<(String, i64)>, key: Seq<char>, dflt: int) -> int
    decreases pairs.len(),
{
    if pairs.len() == 0 {
        dflt
    } else if pairs[0].0@ == key {
        pairs[0].1 as int
    } else {
        weight_val(pairs.skip(1), key, dflt)
    }
}

fn lookup_weight(pairs: &Vec<(String, i64)>, key: &str, dflt: i64) -> (r: i64)
    ensures
        r == weight_val(pairs@, key@, dflt as int),
{
    let n = pairs.len();
    let mut i: usize = 0;
    assert(pairs@.skip(0) =~= pairs@);
    while i < n
        invariant
            i <= n,
            n == pairs@.len(),
            weight_val(pairs@, key@, dflt as int) == weight_val(
                pairs@.skip(i as int),
                key@,
                dflt as int,
            ),
        decreases n - i,
    {
        proof {
            assert(pairs@.skip(i as int)[0] == pairs@[i as int]);
            assert(pairs@.skip(i as int).skip(1) =~= pairs@.skip(i + 1));
        }
        if crate::strutil::str_eq(pairs[i].0.as_str(), key) {
            return pairs[i].1;
        }
        i = i + 1;
    }
    dflt
}

/// The five resolved weights of a configuration, in the fixed category
/// order, with the documented defaults for absent keys.
pub open spec fn weights_spec(c: &HarnessConfig) -> Seq<int> {
    match c.metrics {
        Option::Some(m) => match m.weights {
            Option::Some(w) => seq![
                weight_val(w@, "context"@, 300),
                weight_val(w@, "tools"@, 250),
                weight_val(w@, "continuity"@, 200),
                weight_val(w@, "verification"@, 150),
                weight_val(w@, "repository_quality"@, 100),
            ],
            Option::None => seq![300int, 250int, 200int, 150int, 100int],
        },
        Option::None => seq![300int, 250int, 200int, 150int, 100int],
    }
}

impl HarnessConfig {
    /// The documented default weights: 0.30, 0.25, 0.20, 0.15, 0.10.
    pub fn default_weights() -> (r: [i64; 5])
        ensures
            r[0] == 300 && r[1] == 250 && r[2] == 200 && r[3] == 150 && r[4] == 100,
    {
        [300, 250, 200, 150, 100]
    }

    /// The resolved category weights.
    pub fn weights(&self) -> (r: [i64; 5])
        ensures
            r[0] == weights_spec(self)[0],
            r[1] == weights_spec(self)[1],
            r[2] == weights_spec(self)[2],
            r[3] == weights_spec(self)[3],
            r[4] == weights_spec(self)[4],
    {
        match &self.metrics {
            Option::Some(m) => match &m.weights {
                Option::Some(w) => [
                    lookup_weight(w, "context", 300),
                    lookup_weight(w, "tools", 250),
                    lookup_weight(w, "continuity", 200),
                    lookup_weight(w, "verification", 150),
                    lookup_weight(w, "repository_quality", 100),
                ],
                Option::None => Self::default_weights(),
            },
            Option::None => Self::default_weights(),
        }
    }

    /// The penalty cap per scoring bucket, in thousandths.
    pub fn max_penalty_per_bucket(&self) -> (r: i64)
        ensures
            r == (match self.metrics {
                Option::Some(m) => match m.max_penalty_per_bucket {
                    Option::Some(v) => v as int,
                    Option::None => 400,
                },
                Option::None => 400,
            }),
    {
        match &self.metrics {
            Option::Some(m) => match m.max_penalty_per_bucket {
                Option::Some(v) => v,
                Option::None => 400,
            },
            Option::None => 400,
        }
    }

    /// The optimization thresholds, with the documented defaults for absent
    /// fields.
    pub fn optimization_thresholds(&self) -> (r: OptimizationThresholds)
        ensures
            r == (match self.optimization {
                Option::Some(o) => OptimizationThresholds {
                    min_traces: (match o.min_traces {
                        Option::Some(v) => v,
                        Option::None => 30,
                    }),
                    min_uplift_abs: (match o.min_uplift_abs {
                        Option::Some(v) => v,
                        Option::None => 50,
                    }),
                    min_uplift_rel: (match o.min_uplift_rel {
                        Option::Some(v) => v,
                        Option::None => 100,
                    }),
                    trace_staleness_days: (match o.trace_staleness_days {
                        Option::Some(v) => v,
                        Option::None => 90,
                    }),
                    task_overlap_threshold: (match o.task_overlap_threshold {
                        Option::Some(v) => v,
                        Option::None => 500,
                    }),
                },
                Option::None => OptimizationThresholds {
                    min_traces: 30,
                    min_uplift_abs: 50,
                    min_uplift_rel: 100,
                    trace_staleness_days: 90,
                    task_overlap_threshold: 500,
                },
            }),
    {
        match &self.optimization {
            Option::Some(o) => OptimizationThresholds {
                min_traces: (match o.min_traces {
                    Option::Some(v) => v,
                    Option::None => 30,
                }),
                min_uplift_abs: (match o.min_uplift_abs {
                    Option::Some(v) => v,
                    Option::None => 50,
                }),
                min_uplift_rel: (match o.min_uplift_rel {
                    Option::Some(v) => v,
                    Option::None => 100,
                }),
                trace_staleness_days: (match o.trace_staleness_days {
                    Option::Some(v) => v,
                    Option::None => 90,
                }),
                task_overlap_threshold: (match o.task_overlap_threshold {
                    Option::Some(v) => v,
                    Option::None => 500,
                }),
            },
            Option::None => OptimizationThresholds {
                min_traces: 30,
                min_uplift_abs: 50,
                min_uplift_rel: 100,
                trace_staleness_days: 90,
                task_overlap_threshold: 500,
            },
        }
    }
}


// --- Semantic validation ----------------------------------------------------

/// The five category names that may carry weights.
pub open spec fn allowed_weight_key(k: Seq<char>) -> bool {
    k == "context"@ || k == "tools"@ || k == "continuity"@ || k == "verification"@ || k
        == "repository_quality"@
}

/// The weight keys that name no category, in configuration order.
pub open spec fn unknown_keys(pairs: Seq<(String, i64)>) -> Seq<Seq<char>>
    decreases pairs.len(),
{
    if pairs.len() == 0 {
        Seq::empty()
    } else if allowed_weight_key(pairs[0].0@) {
        unknown_keys(pairs.skip(1))
    } else {
        seq![pairs[0].0@] + unknown_keys(pairs.skip(1))
    }
}

/// The first error in one deprecation stage, walking its tools in order:
/// empty names, duplicates within the stage, then clashes with tools seen
/// in earlier stages.
pub open spec fn stage_err(
    stage: Seq<char>,
    tools: Seq<Seq<char>>,
    sseen: Seq<Seq<char>>,
    seen: Seq<(Seq<char>, Seq<char>)>,
) -> Option<Seq<char>>
    decreases tools.len(),
{
    if tools.len() == 0 {
        None
    } else {
        let t = trim_spec(tools[0]);
        if t.len() == 0 {
            Some("tools.deprecated."@ + stage + " entries must be non-empty command names"@)
        } else if crate::guardrails::seq_has(sseen, t) {
            Some("tools.deprecated."@ + stage + " contains duplicate tool: "@ + t)
        } else {
            match crate::guardrails::alias_val(seen, t) {
                Option::Some(prev) => Some(
                    "tool '"@ + t + "' cannot appear in both tools.deprecated."@ + prev
                        + " and tools.deprecated."@ + stage,
                ),
                Option::None => stage_err(stage, tools.skip(1), sseen.push(t), seen.push((t, stage))),
            }
        }
    }
}

/// The seen-tool table after one error-free deprecation stage.
pub open spec fn stage_out(
    stage: Seq<char>,
    tools: Seq<Seq<char>>,
    sseen: Seq<Seq<char>>,
    seen: Seq<(Seq<char>, Seq<char>)>,
) -> Seq<(Seq<char>, Seq<char>)>
    decreases tools.len(),
{
    if tools.len() == 0 {
        seen
    } else {
        let t = trim_spec(tools[0]);
        if t.len() == 0 || crate::guardrails::seq_has(sseen, t) || crate::guardrails::alias_val(
            seen,
            t,
        ) is Some {
            seen
        } else {
            stage_out(stage, tools.skip(1), sseen.push(t), seen.push((t, stage)))
        }
    }
}

/// The first error in the whole deprecation lifecycle: each tool may appear
/// at most once over the observe, deprecated and disabled stages.
pub open spec fn lifecycle_err(td: &ToolDeprecated) -> Option<Seq<char>> {
    let e1 = stage_err("observe"@, views_of(td.observe@), Seq::empty(), Seq::empty());
    if e1 is Some {
        e1
    } else {
        let s1 = stage_out("observe"@, views_of(td.observe@), Seq::empty(), Seq::empty());
        let e2 = stage_err("deprecated"@, views_of(td.deprecated@), Seq::empty(), s1);
        if e2 is Some {
            e2
        } else {
            let s2 = stage_out("deprecated"@, views_of(td.deprecated@), Seq::empty(), s1);
            stage_err("disabled"@, views_of(td.disabled@), Seq::empty(), s2)
        }
    }
}

/// The first configuration error, in checking order, or nothing when the
/// configuration is semantically valid.
pub open spec fn validate_error(c: &HarnessConfig) -> Option<Seq<char>> {
    if c.project.profile@ != "general"@ && c.project.profile@ != "agent"@ {
        Some("unsupported project.profile: "@ + c.project.profile@)
    } else {
        let w = weights_spec(c);
        if !(0 <= w[0] <= 1000 && 0 <= w[1] <= 1000 && 0 <= w[2] <= 1000 && 0 <= w[3] <= 1000 && 0
            <= w[4] <= 1000) {
            Some("metrics.weights values must be between 0.0 and 1.0"@)
        } else {
            let sum = w[0] + w[1] + w[2] + w[3] + w[4];
            if sum < 999 || sum > 1001 {
                Some("metrics.weights must sum to 1.0 (found "@ + thousandths_spec(sum) + ")"@)
            } else {
                metrics_error(c)
            }
        }
    }
}

/// The remaining checks after the weight checks pass.
pub open spec fn metrics_error(c: &HarnessConfig) -> Option<Seq<char>> {
    match c.metrics {
        Option::Some(m) => {
            let unknown: Seq<Seq<char>> = match m.weights {
                Option::Some(w) => unknown_keys(w@),
                Option::None => Seq::empty(),
            };
            if unknown.len() > 0 {
                Some(
                    "metrics.weights contains unknown key(s): "@ + join_spec(unknown, ", "@),
                )
            } else if (match m.max_risk_tolerance {
                Option::Some(v) => v < 0 || v > 1000,
                Option::None => false,
            }) {
                Some("metrics.max_risk_tolerance must be between 0.0 and 1.0"@)
            } else if (match m.max_penalty_per_bucket {
                Option::Some(v) => v < 0 || v > 1000,
                Option::None => false,
            }) {
                Some("metrics.max_penalty_per_bucket must be between 0.0 and 1.0"@)
            } else {
                verification_error(c)
            }
        },
        Option::None => verification_error(c),
    }
}

/// The verification, lifecycle and optimization checks.
pub open spec fn verification_error(c: &HarnessConfig) -> Option<Seq<char>> {
    if (match c.verification {
        Option::Some(v) => v.pre_completion_required && v.required@.len() == 0,
        Option::None => false,
    }) {
        Some("verification.required cannot be empty when pre_completion_required = true"@)
    } else {
        let lc: Option<Seq<char>> = match c.tools {
            Option::Some(t) => match t.deprecated {
                Option::Some(td) => lifecycle_err(&td),
                Option::None => None,
            },
            Option::None => None,
        };
        if lc is Some {
            lc
        } else {
            optimization_error(c)
        }
    }
}

/// The optimization threshold checks.
pub open spec fn optimization_error(c: &HarnessConfig) -> Option<Seq<char>> {
    match c.optimization {
        Option::Some(o) => {
            if o.min_traces == Some(0u32) {
                Some("optimization.min_traces must be greater than 0"@)
            } else if (match o.min_uplift_abs {
                Option::Some(v) => v > 1000,
                Option::None => false,
            }) {
                Some("optimization.min_uplift_abs must be between 0.0 and 1.0"@)
            } else if (match o.min_uplift_rel {
                Option::Some(v) => v > 1000,
                Option::None => false,
            }) {
                Some("optimization.min_uplift_rel must be between 0.0 and 1.0"@)
            } else if o.trace_staleness_days == Some(0u32) {
                Some("optimization.trace_staleness_days must be greater than 0"@)
            } else if (match o.task_overlap_threshold {
                Option::Some(v) => v > 1000,
                Option::None => false,
            }) {
                Some("optimization.task_overlap_threshold must be between 0.0 and 1.0"@)
            } else {
                None
            }
        },
        Option::None => None,
    }
}

fn collect_unknown_keys(pairs: &Vec<(String, i64)>) -> (r: Vec<String>)
    ensures
        views_of(r@) == unknown_keys(pairs@),
{
    let n = pairs.len();
    let mut r: Vec<String> = Vec::new();
    let mut i: usize = 0;
    assert(pairs@.skip(0) =~= pairs@);
    assert(views_of(r@) =~= Seq::<Seq<char>>::empty());
    while i < n
        invariant
            i <= n,
            n == pairs@.len(),
            views_of(r@) + unknown_keys(pairs@.skip(i as int)) =~= unknown_keys(pairs@),
        decreases n - i,
    {
        proof {
            assert(pairs@.skip(i as int)[0] == pairs@[i as int]);
            assert(pairs@.skip(i as int).skip(1) =~= pairs@.skip(i + 1));
        }
        let k = pairs[i].0.as_str();
        let allowed = crate::strutil::str_eq(k, "context") || crate::strutil::str_eq(k, "tools")
            || crate::strutil::str_eq(k, "continuity") || crate::strutil::str_eq(
            k,
            "verification",
        ) || crate::strutil::str_eq(k, "repository_quality");
        if !allowed {
            let ghost old_views = views_of(r@);
            r.push(pairs[i].0.clone());
            assert(views_of(r@) =~= old_views.push(pairs@[i as int].0@));
        }
        i = i + 1;
    }
    assert(unknown_keys(pairs@.skip(n as int)) =~= Seq::<Seq<char>>::empty());
    assert(views_of(r@) =~= views_of(r@) + unknown_keys(pairs@.skip(n as int)));
    r
}

fn process_stage(stage: &str, tools: &Vec<String>, seen: &mut Vec<(String, String)>) -> (r: Option<
    String,
>)
    ensures
        match r {
            Option::Some(m) => stage_err(
                stage@,
                views_of(tools@),
                Seq::empty(),
                crate::guardrails::alias_views(old(seen)@),
            ) == Some(m@),
            Option::None => stage_err(
                stage@,
                views_of(tools@),
                Seq::empty(),
                crate::guardrails::alias_views(old(seen)@),
            ) is None && crate::guardrails::alias_views(final(seen)@) == stage_out(
                stage@,
                views_of(tools@),
                Seq::empty(),
                crate::guardrails::alias_views(old(seen)@),
            ),
        },
{
    let n = tools.len();
    let mut sseen: Vec<String> = Vec::new();
    let mut i: usize = 0;
    let ghost seen0 = crate::guardrails::alias_views(seen@);
    proof {
        assert(views_of(sseen@) =~= Seq::<Seq<char>>::empty());
        assert(views_of(tools@).skip(0) =~= views_of(tools@));
    }
    while i < n
        invariant
            i <= n,
            n == tools@.len(),
            seen0 == crate::guardrails::alias_views(old(seen)@),
            stage_err(stage@, views_of(tools@), Seq::empty(), seen0) == stage_err(
                stage@,
                views_of(tools@).skip(i as int),
                views_of(sseen@),
                crate::guardrails::alias_views(seen@),
            ),
            stage_out(stage@, views_of(tools@), Seq::empty(), seen0) == stage_out(
                stage@,
                views_of(tools@).skip(i as int),
                views_of(sseen@),
                crate::guardrails::alias_views(seen@),
            ),
        decreases n - i,
    {
        let ghost rest = views_of(tools@).skip(i as int);
        proof {
            assert(rest[0] == views_of(tools@)[i as int]);
            assert(rest.skip(1) =~= views_of(tools@).skip(i + 1));
        }
        let t = trim(tools[i].as_str());
        if t.as_str().is_empty() {
            let mut m = String::new();
            m.append("tools.deprecated.");
            m.append(stage);
            m.append(" entries must be non-empty command names");
            assert(m@ =~= "tools.deprecated."@ + stage@
                + " entries must be non-empty command names"@);
            return Some(m);
        }
        if crate::guardrails::contains_string(&sseen, &t) {
            let mut m = String::new();
            m.append("tools.deprecated.");
            m.append(stage);
            m.append(" contains duplicate tool: ");
            m.append(t.as_str());
            assert(m@ =~= "tools.deprecated."@ + stage@ + " contains duplicate tool: "@
                + trim_spec(rest[0]));
            return Some(m);
        }
        match crate::guardrails::alias_lookup(seen, &t) {
            Option::Some(prev) => {
                let mut m = String::new();
                m.append("tool '");
                m.append(t.as_str());
                m.append("' cannot appear in both tools.deprecated.");
                m.append(prev.as_str());
                m.append(" and tools.deprecated.");
                m.append(stage);
                assert(m@ =~= "tool '"@ + trim_spec(rest[0])
                    + "' cannot appear in both tools.deprecated."@ + prev@
                    + " and tools.deprecated."@ + stage@);
                return Some(m);
            },
            Option::None => {
                let ghost sseen_old = views_of(sseen@);
                let ghost seen_old = crate::guardrails::alias_views(seen@);
                let mut stage_name = String::new();
                stage_name.append(stage);
                sseen.push(t.clone());
                seen.push((t, stage_name));
                proof {
                    assert(views_of(sseen@) =~= sseen_old.push(trim_spec(rest[0])));
                    assert(crate::guardrails::alias_views(seen@) =~= seen_old.push(
                        (trim_spec(rest[0]), stage@),
                    ));
                }
            },
        }
        i = i + 1;
    }
    proof {
        assert(views_of(tools@).skip(n as int) =~= Seq::<Seq<char>>::empty());
    }
    None
}

impl HarnessConfig {
    /// Checks the configuration's semantic rules in order and reports the
    /// first violation as a `ConfigParse` error with its exact message.
    pub fn validate(&self) -> (r: Result<(), HarnessError>)
        ensures
            match r {
                Result::Ok(_) => validate_error(self) is None,
                Result::Err(e) => match e {
                    HarnessError::ConfigParse(m) => validate_error(self) == Some(m@),
                    _ => false,
                },
            },
    {
        let general_ok = crate::strutil::str_eq(self.project.profile.as_str(), "general");
        let agent_ok = crate::strutil::str_eq(self.project.profile.as_str(), "agent");
        if !general_ok && !agent_ok {
            let mut m = String::new();
            m.append("unsupported project.profile: ");
            m.append(self.project.profile.as_str());
            assert(m@ =~= "unsupported project.profile: "@ + self.project.profile@);
            return Err(HarnessError::ConfigParse(m));
        }
        let w = self.weights();
        if !(0 <= w[0] && w[0] <= 1000 && 0 <= w[1] && w[1] <= 1000 && 0 <= w[2] && w[2] <= 1000
            && 0 <= w[3] && w[3] <= 1000 && 0 <= w[4] && w[4] <= 1000) {
            return Err(
                HarnessError::ConfigParse(
                    "metrics.weights values must be between 0.0 and 1.0".to_owned(),
                ),
            );
        }
        let sum: i64 = w[0] + w[1] + w[2] + w[3] + w[4];
        if sum < 999 || sum > 1001 {
            let mut m = String::new();
            m.append("metrics.weights must sum to 1.0 (found ");
            let ss = thousandths_to_string(sum);
            m.append(ss.as_str());
            m.append(")");
            assert(m@ =~= "metrics.weights must sum to 1.0 (found "@ + thousandths_spec(
                sum as int,
            ) + ")"@);
            return Err(HarnessError::ConfigParse(m));
        }
        match &self.metrics {
            Option::Some(metrics) => {
                match &metrics.weights {
                    Option::Some(pairs) => {
                        let unknown = collect_unknown_keys(pairs);
                        if unknown.len() > 0 {
                            let mut m = String::new();
                            m.append("metrics.weights contains unknown key(s): ");
                            let joined = join(&unknown, ", ");
                            m.append(joined.as_str());
                            assert(m@ =~= "metrics.weights contains unknown key(s): "@
                                + join_spec(unknown_keys(pairs@), ", "@));
                            return Err(HarnessError::ConfigParse(m));
                        }
                    },
                    Option::None => {},
                }
                match metrics.max_risk_tolerance {
                    Option::Some(v) => {
                        if v < 0 || v > 1000 {
                            return Err(
                                HarnessError::ConfigParse(
                                    "metrics.max_risk_tolerance must be between 0.0 and 1.0".to_owned(),
                                ),
                            );
                        }
                    },
                    Option::None => {},
                }
                match metrics.max_penalty_per_bucket {
                    Option::Some(v) => {
                        if v < 0 || v > 1000 {
                            return Err(
                                HarnessError::ConfigParse(
                                    "metrics.max_penalty_per_bucket must be between 0.0 and 1.0".to_owned(),
                                ),
                            );
                        }
                    },
                    Option::None => {},
                }
            },
            Option::None => {},
        }
        match &self.verification {
            Option::Some(v) => {
                if v.pre_completion_required && v.required.len() == 0 {
                    return Err(
                        HarnessError::ConfigParse(
                            "verification.required cannot be empty when pre_completion_required = true".to_owned(),
                        ),
                    );
                }
            },
            Option::None => {},
        }
        match &self.tools {
            Option::Some(tools) => match &tools.deprecated {
                Option::Some(td) => {
                    let mut seen: Vec<(String, String)> = Vec::new();
                    proof {
                        assert(crate::guardrails::alias_views(seen@) =~= Seq::<
                            (Seq<char>, Seq<char>),
                        >::empty());
                    }
                    match process_stage("observe", &td.observe, &mut seen) {
                        Option::Some(m) => {
                            return Err(HarnessError::ConfigParse(m));
                        },
                        Option::None => {},
                    }
                    match process_stage("deprecated", &td.deprecated, &mut seen) {
                        Option::Some(m) => {
                            return Err(HarnessError::ConfigParse(m));
                        },
                        Option::None => {},
                    }
                    match process_stage("disabled", &td.disabled, &mut seen) {
                        Option::Some(m) => {
                            return Err(HarnessError::ConfigParse(m));
                        },
                        Option::None => {},
                    }
                },
                Option::None => {},
            },
            Option::None => {},
        }
        match &self.optimization {
            Option::Some(o) => {
                match o.min_traces {
                    Option::Some(v) => {
                        if v == 0 {
                            return Err(
                                HarnessError::ConfigParse(
                                    "optimization.min_traces must be greater than 0".to_owned(),
                                ),
                            );
                        }
                    },
                    Option::None => {},
                }
                match o.min_uplift_abs {
                    Option::Some(v) => {
                        if v > 1000 {
                            return Err(
                                HarnessError::ConfigParse(
                                    "optimization.min_uplift_abs must be between 0.0 and 1.0".to_owned(),
                                ),
                            );
                        }
                    },
                    Option::None => {},
                }
                match o.min_uplift_rel {
                    Option::Some(v) => {
                        if v > 1000 {
                            return Err(
                                HarnessError::ConfigParse(
                                    "optimization.min_uplift_rel must be between 0.0 and 1.0".to_owned(),
                                ),
                            );
                        }
                    },
                    Option::None => {},
                }
                match o.trace_staleness_days {
                    Option::Some(v) => {
                        if v == 0 {
                            return Err(
                                HarnessError::ConfigParse(
                                    "optimization.trace_staleness_days must be greater than 0".to_owned(),
                                ),
                            );
                        }
                    },
                    Option::None => {},
                }
                match o.task_overlap_threshold {
                    Option::Some(v) => {
                        if v > 1000 {
                            return Err(
                                HarnessError::ConfigParse(
                                    "optimization.task_overlap_threshold must be between 0.0 and 1.0".to_owned(),
                                ),
                            );
                        }
                    },
                    Option::None => {},
                }
            },
            Option::None => {},
        }
        Ok(())
    }
}

} // verus!
