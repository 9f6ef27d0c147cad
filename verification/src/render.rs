//! Text rendering of reports: the Markdown analysis report and the
//! optimization report.  Scores appear with three decimal places and
//! proportions with two; signed deltas are rounded half away from zero.
//! JSON and SARIF rendering live with the serialization collaborator.

use crate::delta::{OptimizeDelta, OptimizeDeltaStatus, Ratio, TraceScanStats};
use crate::report::{Effort, HarnessReport, Impact, Risk};
use crate::strutil::{
    cent_spec, cent_to_string, dec_spec, hundredths_spec, hundredths_to_string, join_spec,
    thousandths_spec, thousandths_to_string, u128_to_string, u64_to_string,
};
use vstd::prelude::*;

verus! {

/// The debug rendering of an impact level.
pub open spec fn impact_str(i: Impact) -> Seq<char> {
    match i {
        Impact::Low => "Low"@,
        Impact::Medium => "Medium"@,
        Impact::High => "High"@,
    }
}

fn impact_to_str(i: Impact) -> (r: &'static str)
    ensures
        r@ == impact_str(i),
{
    match i {
        Impact::Low => "Low",
        Impact::Medium => "Medium",
        Impact::High => "High",
    }
}

/// The debug rendering of an effort level.
pub open spec fn effort_str(e: Effort) -> Seq<char> {
    match e {
        Effort::Xs => "Xs"@,
        Effort::S => "S"@,
        Effort::M => "M"@,
        Effort::L => "L"@,
    }
}

fn effort_to_str(e: Effort) -> (r: &'static str)
    ensures
        r@ == effort_str(e),
{
    match e {
        Effort::Xs => "Xs",
        Effort::S => "S",
        Effort::M => "M",
        Effort::L => "L",
    }
}

/// The debug rendering of a risk level.
pub open spec fn risk_str(r: Risk) -> Seq<char> {
    match r {
        Risk::Safe => "Safe"@,
        Risk::Medium => "Medium"@,
        Risk::High => "High"@,
    }
}

fn risk_to_str(r: Risk) -> (s: &'static str)
    ensures
        s@ == risk_str(r),
{
    match r {
        Risk::Safe => "Safe",
        Risk::Medium => "Medium",
        Risk::High => "High",
    }
}

/// A well-formed ratio for rendering: a positive denominator and a
/// numerator small enough to format.
pub open spec fn ratio_renderable(r: Ratio) -> bool {
    1 <= r.den <= 0x10000000000000000000000000000 && -0x10000000000000000000000000000 <= r.num
        <= 0x10000000000000000000000000000
}

/// A ratio rounded to thousandths, half away from zero.
pub open spec fn ratio_milli(num: int, den: int) -> int {
    (2000 * (if num >= 0 {
        num
    } else {
        -num
    }) + den) / (2 * den)
}

/// The `{:+.3}` rendering of a ratio: an explicit sign, then the value
/// rounded to three decimal places, half away from zero.
pub open spec fn signed_milli_spec(num: int, den: int) -> Seq<char> {
    let sign: Seq<char> = if num < 0 {
        seq!['-']
    } else {
        seq!['+']
    };
    let m = ratio_milli(num, den);
    sign + dec_spec(m / 1000) + seq!['.'] + seq![
        crate::strutil::digit_char((m / 100) % 10),
        crate::strutil::digit_char((m / 10) % 10),
        crate::strutil::digit_char(m % 10),
    ]
}

fn signed_milli_to_string(r: Ratio) -> (s: String)
    requires
        ratio_renderable(r),
    ensures
        s@ == signed_milli_spec(r.num as int, r.den as int),
{
    let mut out = String::new();
    let mag: i128 = if r.num >= 0 {
        out.append("+");
        proof {
            reveal_strlit("+");
        }
        r.num
    } else {
        out.append("-");
        proof {
            reveal_strlit("-");
        }
        -r.num
    };
    proof {
        assert(out@ =~= (if r.num < 0 {
            seq!['-']
        } else {
            seq!['+']
        }));
        assert(0 <= (2000 * mag + r.den) / (2 * r.den)) by (nonlinear_arith)
            requires
                mag >= 0,
                r.den >= 1,
        ;
    }
    let m: u128 = ((2000 * mag + r.den) / (2 * r.den)) as u128;
    let whole = u128_to_string(m / 1000);
    out.append(whole.as_str());
    out.append(".");
    proof {
        reveal_strlit(".");
    }
    out.append(crate::strutil::digit_str(((m / 100) % 10) as u64));
    out.append(crate::strutil::digit_str(((m / 10) % 10) as u64));
    out.append(crate::strutil::digit_str((m % 10) as u64));
    assert(out@ =~= signed_milli_spec(r.num as int, r.den as int));
    out
}

/// One finding line of the Markdown report.
pub open spec fn finding_line(f: crate::analyze::FindingModel) -> Seq<char> {
    "- ["@ + (if f.blocking {
        "blocking"@
    } else {
        "warning"@
    }) + "] "@ + f.title + ": "@ + f.body + "\n"@
}

/// The finding lines, concatenated in order.
pub open spec fn finding_lines(fs: Seq<crate::analyze::FindingModel>) -> Seq<char>
    decreases fs.len(),
{
    if fs.len() == 0 {
        Seq::empty()
    } else {
        finding_lines(fs.drop_last()) + finding_line(fs.last())
    }
}

/// One recommendation line of the Markdown report.
pub open spec fn rec_line(r: crate::analyze::RecModel) -> Seq<char> {
    "- "@ + r.title + " ("@ + impact_str(r.impact) + "/"@ + effort_str(r.effort) + ", confidence "@
        + hundredths_spec(r.confidence) + "): "@ + r.summary + "\n"@
}

/// The recommendation lines, concatenated in order.
pub open spec fn rec_lines(rs: Seq<crate::analyze::RecModel>) -> Seq<char>
    decreases rs.len(),
{
    if rs.len() == 0 {
        Seq::empty()
    } else {
        rec_lines(rs.drop_last()) + rec_line(rs.last())
    }
}

/// The whole Markdown analysis report.
pub open spec fn markdown_spec(r: &HarnessReport) -> Seq<char> {
    "# Harness Report\n\n"@ + "Overall score: "@ + thousandths_spec(r.overall_score as int)
        + "\n\n"@ + "## Category Scores\n\n"@ + "- context: "@ + thousandths_spec(
        r.category_scores.context as int,
    ) + "\n- tools: "@ + thousandths_spec(r.category_scores.tools as int) + "\n- continuity: "@
        + thousandths_spec(r.category_scores.continuity as int) + "\n- verification: "@
        + thousandths_spec(r.category_scores.verification as int) + "\n- repository_quality: "@
        + thousandths_spec(r.category_scores.repository_quality as int) + "\n\n"@
        + "## Findings\n\n"@ + (if r.findings@.len() == 0 {
        "- none\n\n"@
    } else {
        finding_lines(crate::analyze::finding_models(r.findings@)) + "\n"@
    }) + "## Recommendations\n\n"@ + (if r.recommendations@.len() == 0 {
        "- none\n"@
    } else {
        rec_lines(crate::analyze::rec_models(r.recommendations@))
    })
}

/// Renders the analysis report as Markdown.
#[verifier::rlimit(100)]
pub fn to_markdown(report: &HarnessReport) -> (out: String)
    ensures
        out@ == markdown_spec(report),
{
    let mut out = String::new();
    out.append("# Harness Report\n\n");
    out.append("Overall score: ");
    let s = thousandths_to_string(report.overall_score);
    out.append(s.as_str());
    out.append("\n\n");
    out.append("## Category Scores\n\n");
    out.append("- context: ");
    let s = thousandths_to_string(report.category_scores.context);
    out.append(s.as_str());
    out.append("\n- tools: ");
    let s = thousandths_to_string(report.category_scores.tools);
    out.append(s.as_str());
    out.append("\n- continuity: ");
    let s = thousandths_to_string(report.category_scores.continuity);
    out.append(s.as_str());
    out.append("\n- verification: ");
    let s = thousandths_to_string(report.category_scores.verification);
    out.append(s.as_str());
    out.append("\n- repository_quality: ");
    let s = thousandths_to_string(report.category_scores.repository_quality);
    out.append(s.as_str());
    out.append("\n\n");
    out.append("## Findings\n\n");
    let ghost head = out@;
    if report.findings.len() == 0 {
        out.append("- none\n\n");
    } else {
        let n = report.findings.len();
        let mut i: usize = 0;
        while i < n
            invariant
                i <= n,
                n == report.findings@.len(),
                out@ == head + finding_lines(
                    crate::analyze::finding_models(report.findings@).take(i as int),
                ),
            decreases n - i,
        {
            proof {
                let fs = crate::analyze::finding_models(report.findings@);
                assert(fs.take(i + 1).drop_last() =~= fs.take(i as int));
                assert(fs.take(i + 1).last() == report.findings@[i as int].model());
            }
            let f = &report.findings[i];
            out.append("- [");
            if f.blocking {
                out.append("blocking");
            } else {
                out.append("warning");
            }
            out.append("] ");
            out.append(f.title.as_str());
            out.append(": ");
            out.append(f.body.as_str());
            out.append("\n");
            i = i + 1;
            proof {
                let fs = crate::analyze::finding_models(report.findings@);
                assert(out@ =~= head + finding_lines(fs.take(i as int)));
            }
        }
        proof {
            let fs = crate::analyze::finding_models(report.findings@);
            assert(fs.take(n as int) =~= fs);
        }
        out.append("\n");
    }
    out.append("## Recommendations\n\n");
    let ghost head2 = out@;
    if report.recommendations.len() == 0 {
        out.append("- none\n");
    } else {
        let n = report.recommendations.len();
        let mut i: usize = 0;
        while i < n
            invariant
                i <= n,
                n == report.recommendations@.len(),
                out@ == head2 + rec_lines(
                    crate::analyze::rec_models(report.recommendations@).take(i as int),
                ),
            decreases n - i,
        {
            proof {
                let rs = crate::analyze::rec_models(report.recommendations@);
                assert(rs.take(i + 1).drop_last() =~= rs.take(i as int));
                assert(rs.take(i + 1).last() == report.recommendations@[i as int].model());
            }
            let rec = &report.recommendations[i];
            out.append("- ");
            out.append(rec.title.as_str());
            out.append(" (");
            out.append(impact_to_str(rec.impact));
            out.append("/");
            out.append(effort_to_str(rec.effort));
            out.append(", confidence ");
            let c = hundredths_to_string(rec.confidence);
            out.append(c.as_str());
            out.append("): ");
            out.append(rec.summary.as_str());
            out.append("\n");
            i = i + 1;
            proof {
                let rs = crate::analyze::rec_models(report.recommendations@);
                assert(out@ =~= head2 + rec_lines(rs.take(i as int)));
            }
        }
        proof {
            let rs = crate::analyze::rec_models(report.recommendations@);
            assert(rs.take(n as int) =~= rs);
        }
    }
    proof {
        assert(out@ =~= markdown_spec(report));
    }
    out
}


// --- The optimize report ----------------------------------------------------

/// One entry of the top-recommendations list.
pub open spec fn top_rec_line(r: crate::analyze::RecModel) -> Seq<char> {
    "- `"@ + r.id + "`: "@ + r.summary + " (impact: "@ + impact_str(r.impact) + ", effort: "@
        + effort_str(r.effort) + ", risk: "@ + risk_str(r.risk) + ", confidence: "@
        + hundredths_spec(r.confidence) + ")"@
}

/// The top-recommendation lines, one per model.
pub open spec fn top_rec_lines(rs: Seq<crate::analyze::RecModel>) -> Seq<Seq<char>>
    decreases rs.len(),
{
    if rs.len() == 0 {
        Seq::empty()
    } else {
        top_rec_lines(rs.drop_last()).push(top_rec_line(rs.last()))
    }
}

/// The status line of an optimization delta.
pub open spec fn status_line(s: OptimizeDeltaStatus) -> Seq<char> {
    match s {
        OptimizeDeltaStatus::Improvement => "Status: improvement detected."@,
        OptimizeDeltaStatus::Regression => "Status: regression warning."@,
        OptimizeDeltaStatus::Neutral => "Status: stable; changes are below uplift thresholds."@,
        OptimizeDeltaStatus::InsufficientData
            => "Status: insufficient comparative data for optimize deltas."@,
    }
}

/// The delta section of the optimization report, through the blank line
/// after the status and reason.
pub open spec fn optimize_head(
    r: &HarnessReport,
    scan: TraceScanStats,
    th: crate::delta::OptimizationThresholds,
    trace_dir: Seq<char>,
    d: &OptimizeDelta,
) -> Seq<Seq<char>> {
    let base = seq![
        "# Harness Optimize Report"@,
        ""@,
        "Overall score: "@ + thousandths_spec(r.overall_score as int),
        "Trace directory: "@ + trace_dir,
        "Trace records: recent="@ + dec_spec(scan.recent as int) + ", stale="@ + dec_spec(
            scan.stale as int,
        ) + ", malformed="@ + dec_spec(scan.malformed as int),
        "Recent traces required for optimization: "@ + dec_spec(th.min_traces as int),
        ""@,
    ];
    let warn: Seq<Seq<char>> = if scan.malformed > 0 {
        seq!["Warning: ignored malformed trace records: "@ + dec_spec(scan.malformed as int)]
    } else {
        Seq::empty()
    };
    let revline: Seq<Seq<char>> = match (d.baseline_revision, d.current_revision) {
        (Option::Some(b), Option::Some(c)) => seq![
            "- revisions compared: baseline=`"@ + b@ + "`, current=`"@ + c@ + "`"@,
        ],
        _ => Seq::empty(),
    };
    let reason: Seq<Seq<char>> = match d.reason {
        Option::Some(m) => seq!["Reason: "@ + m@],
        Option::None => Seq::empty(),
    };
    base + warn + seq!["## Optimization Delta"@] + revline + seq![
        "- task overlap: "@ + cent_spec(
            crate::delta::spec_ratio_cent(d.task_overlap.num as int, d.task_overlap.den as int),
        ),
        "- completion delta: "@ + signed_milli_spec(
            d.completion_delta.num as int,
            d.completion_delta.den as int,
        ) + ", token delta (rel): "@ + signed_milli_spec(
            d.token_delta_rel.num as int,
            d.token_delta_rel.den as int,
        ) + ", step delta (rel): "@ + signed_milli_spec(
            d.step_delta_rel.num as int,
            d.step_delta_rel.den as int,
        ),
        status_line(d.status),
    ] + reason + seq![""@]
}

/// The lines of the optimization report: the header and scan statistics,
/// then either the insufficient-recent-data notice, or the delta section;
/// the recommendation listing appears only when the delta did not end in
/// insufficient data.
pub open spec fn optimize_lines(
    r: &HarnessReport,
    scan: TraceScanStats,
    th: crate::delta::OptimizationThresholds,
    trace_dir: Seq<char>,
    d: &OptimizeDelta,
) -> Seq<Seq<char>> {
    let base = seq![
        "# Harness Optimize Report"@,
        ""@,
        "Overall score: "@ + thousandths_spec(r.overall_score as int),
        "Trace directory: "@ + trace_dir,
        "Trace records: recent="@ + dec_spec(scan.recent as int) + ", stale="@ + dec_spec(
            scan.stale as int,
        ) + ", malformed="@ + dec_spec(scan.malformed as int),
        "Recent traces required for optimization: "@ + dec_spec(th.min_traces as int),
        ""@,
    ];
    let warn: Seq<Seq<char>> = if scan.malformed > 0 {
        seq!["Warning: ignored malformed trace records: "@ + dec_spec(scan.malformed as int)]
    } else {
        Seq::empty()
    };
    if scan.recent < th.min_traces {
        base + warn + seq![
            "Status: insufficient data for optimization recommendations."@,
            "Need at least "@ + dec_spec(th.min_traces as int)
                + " recent traces before computing optimize deltas."@,
            ""@,
        ]
    } else {
        let head = optimize_head(r, scan, th, trace_dir, d);
        if d.status is InsufficientData {
            head
        } else {
            let shown = crate::analyze::rec_models(r.recommendations@).take(
                if r.recommendations@.len() < 10 {
                    r.recommendations@.len() as int
                } else {
                    10
                },
            );
            head + seq!["## Top Recommendations"@] + (if r.recommendations@.len() == 0 {
                seq!["- No recommendations available."@]
            } else {
                top_rec_lines(shown)
            }) + seq![""@]
        }
    }
}

/// Renders the optimization report.  Callers hand the report with its
/// recommendations already ranked; when the delta ended in insufficient
/// data the recommendation listing is omitted and the gating reason shown.
#[verifier::rlimit(100)]
pub fn render_optimize_report(
    report: &HarnessReport,
    trace_scan: TraceScanStats,
    thresholds: &crate::delta::OptimizationThresholds,
    trace_dir: &str,
    delta: &OptimizeDelta,
) -> (out: String)
    requires
        ratio_renderable(delta.completion_delta),
        ratio_renderable(delta.token_delta_rel),
        ratio_renderable(delta.step_delta_rel),
        0 <= delta.task_overlap.num <= delta.task_overlap.den,
        1 <= delta.task_overlap.den <= 0x10000000000000000000000000000,
    ensures
        out@ == join_spec(
            optimize_lines(report, trace_scan, *thresholds, trace_dir@, delta),
            "\n"@,
        ),
{
    let mut lines: Vec<String> = Vec::new();
    lines.push("# Harness Optimize Report".to_owned());
    lines.push("".to_owned());
    let mut l = String::new();
    l.append("Overall score: ");
    let s = thousandths_to_string(report.overall_score);
    l.append(s.as_str());
    lines.push(l);
    let mut l = String::new();
    l.append("Trace directory: ");
    l.append(trace_dir);
    lines.push(l);
    let mut l = String::new();
    l.append("Trace records: recent=");
    let s = u64_to_string(trace_scan.recent);
    l.append(s.as_str());
    l.append(", stale=");
    let s = u64_to_string(trace_scan.stale);
    l.append(s.as_str());
    l.append(", malformed=");
    let s = u64_to_string(trace_scan.malformed);
    l.append(s.as_str());
    lines.push(l);
    let mut l = String::new();
    l.append("Recent traces required for optimization: ");
    let s = u64_to_string(thresholds.min_traces as u64);
    l.append(s.as_str());
    lines.push(l);
    lines.push("".to_owned());
    if trace_scan.malformed > 0 {
        let mut l = String::new();
        l.append("Warning: ignored malformed trace records: ");
        let s = u64_to_string(trace_scan.malformed);
        l.append(s.as_str());
        lines.push(l);
    }
    if trace_scan.recent < thresholds.min_traces as u64 {
        lines.push("Status: insufficient data for optimization recommendations.".to_owned());
        let mut l = String::new();
        l.append("Need at least ");
        let s = u64_to_string(thresholds.min_traces as u64);
        l.append(s.as_str());
        l.append(" recent traces before computing optimize deltas.");
        lines.push(l);
        lines.push("".to_owned());
        proof {
            assert(crate::strutil::views_of(lines@) =~= optimize_lines(
                report,
                trace_scan,
                *thresholds,
                trace_dir@,
                delta,
            ));
        }
        return crate::strutil::join(&lines, "\n");
    }
    lines.push("## Optimization Delta".to_owned());
    match (&delta.baseline_revision, &delta.current_revision) {
        (Option::Some(b), Option::Some(c)) => {
            let mut l = String::new();
            l.append("- revisions compared: baseline=`");
            l.append(b.as_str());
            l.append("`, current=`");
            l.append(c.as_str());
            l.append("`");
            lines.push(l);
        },
        _ => {},
    }
    let mut l = String::new();
    l.append("- task overlap: ");
    proof {
        assert(0 <= (200 * delta.task_overlap.num + delta.task_overlap.den) / (2
            * delta.task_overlap.den) <= 100) by (nonlinear_arith)
            requires
                0 <= delta.task_overlap.num <= delta.task_overlap.den,
                1 <= delta.task_overlap.den,
        ;
    }
    let ovc = ((200 * delta.task_overlap.num + delta.task_overlap.den) / (2
        * delta.task_overlap.den)) as u64;
    let s = cent_to_string(ovc);
    l.append(s.as_str());
    lines.push(l);
    let mut l = String::new();
    l.append("- completion delta: ");
    let s = signed_milli_to_string(delta.completion_delta);
    l.append(s.as_str());
    l.append(", token delta (rel): ");
    let s = signed_milli_to_string(delta.token_delta_rel);
    l.append(s.as_str());
    l.append(", step delta (rel): ");
    let s = signed_milli_to_string(delta.step_delta_rel);
    l.append(s.as_str());
    lines.push(l);
    let status_text: &'static str = match delta.status {
        OptimizeDeltaStatus::Improvement => "Status: improvement detected.",
        OptimizeDeltaStatus::Regression => "Status: regression warning.",
        OptimizeDeltaStatus::Neutral => "Status: stable; changes are below uplift thresholds.",
        OptimizeDeltaStatus::InsufficientData
            => "Status: insufficient comparative data for optimize deltas.",
    };
    let mut l = String::new();
    l.append(status_text);
    lines.push(l);
    match &delta.reason {
        Option::Some(m) => {
            let mut l = String::new();
            l.append("Reason: ");
            l.append(m.as_str());
            lines.push(l);
        },
        Option::None => {},
    }
    lines.push("".to_owned());
    proof {
        assert(crate::strutil::views_of(lines@) =~= optimize_head(
            report,
            trace_scan,
            *thresholds,
            trace_dir@,
            delta,
        ));
    }
    let insufficient = match delta.status {
        OptimizeDeltaStatus::InsufficientData => true,
        _ => false,
    };
    if insufficient {
        proof {
            assert(crate::strutil::views_of(lines@) =~= optimize_lines(
                report,
                trace_scan,
                *thresholds,
                trace_dir@,
                delta,
            ));
        }
        return crate::strutil::join(&lines, "\n");
    }
    lines.push("## Top Recommendations".to_owned());
    proof {
        assert(crate::strutil::views_of(lines@) =~= optimize_head(
            report,
            trace_scan,
            *thresholds,
            trace_dir@,
            delta,
        ) + seq!["## Top Recommendations"@]);
    }
    if report.recommendations.len() == 0 {
        lines.push("- No recommendations available.".to_owned());
        proof {
            assert(crate::strutil::views_of(lines@) =~= optimize_head(
                report,
                trace_scan,
                *thresholds,
                trace_dir@,
                delta,
            ) + seq!["## Top Recommendations"@] + seq!["- No recommendations available."@]);
        }
    } else {
        let ghost before_recs = crate::strutil::views_of(lines@);
        let limit: usize = if report.recommendations.len() < 10 {
            report.recommendations.len()
        } else {
            10
        };
        let ghost shown = crate::analyze::rec_models(report.recommendations@).take(limit as int);
        let mut i: usize = 0;
        proof {
            assert(top_rec_lines(shown.take(0)) =~= Seq::<Seq<char>>::empty());
            assert(crate::strutil::views_of(lines@) =~= before_recs + top_rec_lines(
                shown.take(0),
            ));
        }
        while i < limit
            invariant
                i <= limit,
                limit <= report.recommendations@.len(),
                shown == crate::analyze::rec_models(report.recommendations@).take(limit as int),
                crate::strutil::views_of(lines@) =~= before_recs + top_rec_lines(
                    shown.take(i as int),
                ),
            decreases limit - i,
        {
            proof {
                assert(shown.take(i + 1).drop_last() =~= shown.take(i as int));
                assert(shown.take(i + 1).last() == shown[i as int]);
                assert(shown[i as int] == report.recommendations@[i as int].model());
            }
            let rec = &report.recommendations[i];
            let mut l = String::new();
            l.append("- `");
            l.append(rec.id.as_str());
            l.append("`: ");
            l.append(rec.summary.as_str());
            l.append(" (impact: ");
            l.append(impact_to_str(rec.impact));
            l.append(", effort: ");
            l.append(effort_to_str(rec.effort));
            l.append(", risk: ");
            l.append(risk_to_str(rec.risk));
            l.append(", confidence: ");
            let c = hundredths_to_string(rec.confidence);
            l.append(c.as_str());
            l.append(")");
            assert(l@ =~= top_rec_line(shown[i as int]));
            let ghost before = crate::strutil::views_of(lines@);
            lines.push(l);
            proof {
                assert(crate::strutil::views_of(lines@) =~= before.push(top_rec_line(
                    shown[i as int],
                )));
                assert(crate::strutil::views_of(lines@) =~= before_recs + top_rec_lines(
                    shown.take(i + 1),
                ));
            }
            i = i + 1;
        }
        proof {
            assert(shown.take(limit as int) =~= shown);
            assert(crate::strutil::views_of(lines@) =~= optimize_head(
                report,
                trace_scan,
                *thresholds,
                trace_dir@,
                delta,
            ) + seq!["## Top Recommendations"@] + top_rec_lines(shown));
        }
    }
    lines.push("".to_owned());
    proof {
        assert(crate::strutil::views_of(lines@) =~= optimize_lines(
            report,
            trace_scan,
            *thresholds,
            trace_dir@,
            delta,
        ));
    }
    crate::strutil::join(&lines, "\n")
}

} // verus!
