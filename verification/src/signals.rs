//! The signal model: observed repository facts consumed by the scorers,
//! and the pure detection logic that derives tool and quality signals.
//! Filesystem and version-control scanning happens upstream; this module
//! only computes over already-materialized values.

use crate::config::HarnessConfig;
use crate::strutil::{
    ends_with, has_sub, lemma_lex_lt_irrefl, lemma_lex_lt_trans, lex_lt, lower_of, lowercase,
    str_contains, str_ends_with, str_lt, trim, trim_spec, views_of,
};
use vstd::multiset::Multiset;
use vstd::prelude::*;
use vstd::seq_lib::group_to_multiset_ensures;

verus! {

broadcast use group_to_multiset_ensures;

/// Observed documentation facts.
pub struct DocSignals {
    pub has_agents_md: bool,
    pub agents_has_section_header: bool,
    pub has_context_index: bool,
    pub has_architecture_doc: bool,
    pub readme_links_architecture: bool,
    pub docs_age_days: Option<i64>,
}

impl Default for DocSignals {
    /// All signals absent.
    fn default() -> (r: Self)
        ensures
            !r.has_agents_md,
            !r.agents_has_section_header,
            !r.has_context_index,
            !r.has_architecture_doc,
            !r.readme_links_architecture,
            r.docs_age_days is None,
    {
        DocSignals {
            has_agents_md: false,
            agents_has_section_header: false,
            has_context_index: false,
            has_architecture_doc: false,
            readme_links_architecture: false,
            docs_age_days: None,
        }
    }
}

/// Observed tool-inventory facts.
pub struct ToolSignals {
    pub tool_names: Vec<String>,
    pub risky_overlap_clusters: usize,
    pub unrestricted_destructive: usize,
    pub has_ambiguous_duplicates: bool,
}

impl Default for ToolSignals {
    /// An empty inventory.
    fn default() -> (r: Self)
        ensures
            r.tool_names@.len() == 0,
            r.risky_overlap_clusters == 0,
            r.unrestricted_destructive == 0,
            !r.has_ambiguous_duplicates,
    {
        ToolSignals {
            tool_names: Vec::new(),
            risky_overlap_clusters: 0,
            unrestricted_destructive: 0,
            has_ambiguous_duplicates: false,
        }
    }
}

/// Observed continuity-artifact facts.
pub struct ContinuitySignals {
    pub has_initializer_prompt: bool,
    pub has_coding_prompt: bool,
    pub has_progress_file: bool,
    pub has_feature_state_file: bool,
    pub has_progress_summary: bool,
}

impl Default for ContinuitySignals {
    /// All signals absent.
    fn default() -> (r: Self)
        ensures
            !r.has_initializer_prompt,
            !r.has_coding_prompt,
            !r.has_progress_file,
            !r.has_feature_state_file,
            !r.has_progress_summary,
    {
        ContinuitySignals {
            has_initializer_prompt: false,
            has_coding_prompt: false,
            has_progress_file: false,
            has_feature_state_file: false,
            has_progress_summary: false,
        }
    }
}

/// Observed repository-quality facts.
pub struct QualitySignals {
    pub has_ci_workflow: bool,
    pub has_tests: bool,
    pub has_lint_config: bool,
}

impl Default for QualitySignals {
    /// All signals absent.
    fn default() -> (r: Self)
        ensures
            !r.has_ci_workflow,
            !r.has_tests,
            !r.has_lint_config,
    {
        QualitySignals { has_ci_workflow: false, has_tests: false, has_lint_config: false }
    }
}

/// Everything the analyzer reads about one repository.
pub struct RepoModel {
    pub file_count: usize,
    pub docs: DocSignals,
    pub tools: ToolSignals,
    pub continuity: ContinuitySignals,
    pub quality: QualitySignals,
}

// --- Tool detection ---------------------------------------------------------

/// The fallback tool inventory.
pub open spec fn default_tool_views() -> Seq<Seq<char>> {
    seq!["bash"@, "ls"@, "find"@, "cat"@, "rg"@, "git"@]
}

/// The built-in tool inventory used when configuration names no tools.
pub fn default_tool_names() -> (r: Vec<String>)
    ensures
        views_of(r@) =~= default_tool_views(),
{
    let mut r: Vec<String> = Vec::new();
    r.push("bash".to_owned());
    r.push("ls".to_owned());
    r.push("find".to_owned());
    r.push("cat".to_owned());
    r.push("rg".to_owned());
    r.push("git".to_owned());
    r
}

/// The tool names a configuration lists: baseline read and write commands,
/// then specialized extras.
pub open spec fn config_tool_views(c: &HarnessConfig) -> Seq<Seq<char>> {
    let base: Seq<Seq<char>> = match c.tools {
        Option::Some(t) => match t.baseline {
            Option::Some(b) => views_of(b.read@) + views_of(b.write@),
            Option::None => Seq::empty(),
        },
        Option::None => Seq::empty(),
    };
    let extra: Seq<Seq<char>> = match c.tools {
        Option::Some(t) => match t.specialized {
            Option::Some(sp) => views_of(sp.extra@),
            Option::None => Seq::empty(),
        },
        Option::None => Seq::empty(),
    };
    base + extra
}

fn append_clones(out: &mut Vec<String>, src: &Vec<String>)
    ensures
        views_of(final(out)@) == views_of(old(out)@) + views_of(src@),
{
    let n = src.len();
    let mut i: usize = 0;
    proof {
        assert(views_of(out@) =~= views_of(old(out)@) + views_of(src@).take(0));
    }
    while i < n
        invariant
            i <= n,
            n == src@.len(),
            views_of(out@) =~= views_of(old(out)@) + views_of(src@).take(i as int),
        decreases n - i,
    {
        let piece = src[i].clone();
        let ghost before = views_of(out@);
        out.push(piece);
        proof {
            assert(views_of(out@) =~= before.push(src@[i as int]@));
            assert(views_of(src@).take(i + 1) =~= views_of(src@).take(i as int).push(
                src@[i as int]@,
            ));
            assert(views_of(out@) =~= views_of(old(out)@) + views_of(src@).take(i + 1));
        }
        i = i + 1;
    }
    proof {
        assert(views_of(src@).take(n as int) =~= views_of(src@));
    }
}

fn collect_config_tools(c: &HarnessConfig) -> (r: Vec<String>)
    ensures
        views_of(r@) == config_tool_views(c),
{
    let mut out: Vec<String> = Vec::new();
    proof {
        assert(views_of(out@) =~= Seq::<Seq<char>>::empty());
    }
    match &c.tools {
        Option::Some(t) => {
            match &t.baseline {
                Option::Some(b) => {
                    append_clones(&mut out, &b.read);
                    append_clones(&mut out, &b.write);
                },
                Option::None => {},
            }
            match &t.specialized {
                Option::Some(sp) => {
                    append_clones(&mut out, &sp.extra);
                },
                Option::None => {},
            }
        },
        Option::None => {},
    }
    proof {
        assert(views_of(out@) =~= config_tool_views(c));
    }
    out
}

/// The normalized views of a raw tool list: each name trimmed and
/// lowercased, empty names dropped, in source order.
pub open spec fn normalized_views(raw: Seq<Seq<char>>) -> Seq<Seq<char>>
    decreases raw.len(),
{
    if raw.len() == 0 {
        Seq::empty()
    } else if trim_spec(raw[0]).len() == 0 {
        normalized_views(raw.skip(1))
    } else {
        seq![lower_of(trim_spec(raw[0]))] + normalized_views(raw.skip(1))
    }
}

/// A character-sequence list in nondecreasing lexicographic order.
pub open spec fn lex_sorted(s: Seq<Seq<char>>) -> bool {
    forall|i: int, j: int| 0 <= i < j < s.len() ==> !lex_lt(#[trigger] s[j], #[trigger] s[i])
}

/// Drops empty names, trims and lowercases the rest, and sorts the result.
pub fn normalize_tool_list(tools: &mut Vec<String>)
    ensures
        views_of(final(tools)@).to_multiset() == normalized_views(
            views_of(old(tools)@),
        ).to_multiset(),
        lex_sorted(views_of(final(tools)@)),
{
    let n = tools.len();
    let mut kept: Vec<String> = Vec::new();
    let mut i: usize = 0;
    proof {
        assert(views_of(kept@) =~= Seq::<Seq<char>>::empty());
        assert(views_of(tools@).skip(0) =~= views_of(tools@));
    }
    while i < n
        invariant
            i <= n,
            n == tools@.len(),
            *tools == *old(tools),
            views_of(kept@) + normalized_views(views_of(tools@).skip(i as int)) =~= normalized_views(
                views_of(tools@),
            ),
        decreases n - i,
    {
        proof {
            let vs = views_of(tools@);
            assert(vs.skip(i as int)[0] == vs[i as int]);
            assert(vs.skip(i as int).skip(1) =~= vs.skip(i + 1));
        }
        let trimmed = trim(tools[i].as_str());
        if !trimmed.as_str().is_empty() {
            let low = lowercase(trimmed.as_str());
            let ghost before = views_of(kept@);
            kept.push(low);
            assert(views_of(kept@) =~= before.push(
                lower_of(trim_spec(views_of(tools@)[i as int])),
            ));
        }
        i = i + 1;
    }
    proof {
        assert(normalized_views(views_of(tools@).skip(n as int)) =~= Seq::<Seq<char>>::empty());
        assert(views_of(kept@) =~= normalized_views(views_of(tools@)));
    }
    let sorted = sort_names(kept);
    *tools = sorted;
}

/// Sorts a name list into nondecreasing lexicographic order.
fn sort_names(input: Vec<String>) -> (r: Vec<String>)
    ensures
        views_of(r@).to_multiset() == views_of(input@).to_multiset(),
        lex_sorted(views_of(r@)),
{
    let ghost orig = views_of(input@).to_multiset();
    let mut v = input;
    let mut out: Vec<String> = Vec::new();
    proof {
        assert(views_of(out@).to_multiset().add(views_of(v@).to_multiset()) =~= orig);
    }
    while v.len() > 0
        invariant
            views_of(out@).to_multiset().add(views_of(v@).to_multiset()) =~= orig,
            lex_sorted(views_of(out@)),
            forall|p: int, q: int|
                0 <= p < out@.len() && 0 <= q < v@.len() ==> !lex_lt(
                    #[trigger] views_of(v@)[q],
                    #[trigger] views_of(out@)[p],
                ),
        decreases v@.len(),
    {
        let n = v.len();
        let mut m: usize = 0;
        let mut k: usize = 1;
        proof {
            lemma_lex_lt_irrefl(views_of(v@)[0]);
        }
        while k < n
            invariant
                m < k <= n,
                n == v@.len(),
                forall|q: int|
                    0 <= q < k ==> !lex_lt(#[trigger] views_of(v@)[q], views_of(v@)[m as int]),
            decreases n - k,
        {
            if str_lt(v[k].as_str(), v[m].as_str()) {
                proof {
                    assert forall|q: int| 0 <= q < k implies !lex_lt(
                        #[trigger] views_of(v@)[q],
                        views_of(v@)[k as int],
                    ) by {
                        if lex_lt(views_of(v@)[q], views_of(v@)[k as int]) {
                            lemma_lex_lt_trans(
                                views_of(v@)[q],
                                views_of(v@)[k as int],
                                views_of(v@)[m as int],
                            );
                        }
                    }
                    lemma_lex_lt_irrefl(views_of(v@)[k as int]);
                }
                m = k;
            }
            k = k + 1;
        }
        let ghost v_before = v@;
        let ghost out_before = out@;
        let picked = v.remove(m);
        out.push(picked);
        proof {
            assert(views_of(v@) =~= views_of(v_before).remove(m as int));
            assert(views_of(out@) =~= views_of(out_before).push(v_before[m as int]@));
            assert(views_of(v@).to_multiset() =~= views_of(v_before).to_multiset().remove(
                v_before[m as int]@,
            ));
            assert(views_of(v_before).to_multiset().count(v_before[m as int]@) >= 1) by {
                assert(views_of(v_before).contains(v_before[m as int]@)) by {
                    assert(views_of(v_before)[m as int] == v_before[m as int]@);
                }
            }
            assert(views_of(out@).to_multiset() =~= views_of(out_before).to_multiset().insert(
                v_before[m as int]@,
            ));
            assert(views_of(out@).to_multiset().add(views_of(v@).to_multiset()) =~= orig);
            assert forall|p: int, q: int|
                0 <= p < out@.len() && 0 <= q < v@.len() implies !lex_lt(
                #[trigger] views_of(v@)[q],
                #[trigger] views_of(out@)[p],
            ) by {
                assert(views_of(v@)[q] == views_of(v_before)[
                    if q < m {
                        q
                    } else {
                        q + 1
                    }
                ]);
                if p < out_before.len() {
                    assert(views_of(out@)[p] == views_of(out_before)[p]);
                } else {
                    assert(views_of(out@)[p] == v_before[m as int]@);
                }
            }
            assert(lex_sorted(views_of(out@))) by {
                assert(forall|p: int, q: int|
                    0 <= p < q < out@.len() && q < out_before.len() ==> !lex_lt(
                        #[trigger] views_of(out@)[q],
                        #[trigger] views_of(out@)[p],
                    ));
                assert(forall|p: int|
                    0 <= p < out_before.len() ==> !lex_lt(
                        views_of(out@)[out@.len() - 1],
                        #[trigger] views_of(out@)[p],
                    ));
            }
        }
    }
    proof {
        assert(views_of(v@).to_multiset() =~= Multiset::empty());
        assert(views_of(out@).to_multiset() =~= orig);
    }
    out
}

/// How many of `cands` occur in `names`.
pub open spec fn present_count(cands: Seq<Seq<char>>, names: Seq<Seq<char>>) -> int {
    crate::delta::inter_count(cands, names)
}

fn count_present(cands: &Vec<String>, names: &Vec<String>) -> (r: usize)
    ensures
        r == present_count(views_of(cands@), views_of(names@)),
        r <= cands@.len(),
{
    let n = cands.len();
    let mut r: usize = 0;
    let mut i: usize = 0;
    assert(views_of(cands@).take(0) =~= Seq::<Seq<char>>::empty());
    while i < n
        invariant
            i <= n,
            r <= i,
            n == cands@.len(),
            r == crate::delta::inter_count(views_of(cands@).take(i as int), views_of(names@)),
        decreases n - i,
    {
        proof {
            let vc = views_of(cands@);
            assert(vc.take(i + 1).drop_last() =~= vc.take(i as int));
            assert(vc.take(i + 1).last() == cands@[i as int]@);
        }
        if crate::guardrails::contains_string(names, &cands[i]) {
            r = r + 1;
        }
        i = i + 1;
    }
    assert(views_of(cands@).take(n as int) =~= views_of(cands@));
    r
}

/// The grep-style overlap cluster.
pub open spec fn grep_cluster() -> Seq<Seq<char>> {
    seq!["grep"@, "rg"@, "ag"@, "ack"@]
}

/// The find-style overlap cluster.
pub open spec fn find_cluster() -> Seq<Seq<char>> {
    seq!["find"@, "fd"@]
}

/// The command names considered destructive when exposed unrestricted.
pub open spec fn dangerous_tools() -> Seq<Seq<char>> {
    seq!["sudo"@, "mkfs"@, "fdisk"@, "rm"@, "shutdown"@]
}

/// How many risky overlap clusters the inventory exhibits: one for each
/// cluster with more than one member present.
pub open spec fn overlap_clusters_spec(names: Seq<Seq<char>>) -> int {
    (if present_count(grep_cluster(), names) > 1 {
        1int
    } else {
        0int
    }) + (if present_count(find_cluster(), names) > 1 {
        1int
    } else {
        0int
    })
}

/// How many inventory entries are destructive commands, with multiplicity.
pub open spec fn destructive_count(names: Seq<Seq<char>>) -> int
    decreases names.len(),
{
    if names.len() == 0 {
        0
    } else {
        destructive_count(names.drop_last()) + if crate::guardrails::seq_has(
            dangerous_tools(),
            names.last(),
        ) {
            1int
        } else {
            0int
        }
    }
}

/// Whether any name occurs twice.
pub open spec fn has_dup(names: Seq<Seq<char>>) -> bool {
    exists|i: int, j: int| 0 <= i < j < names.len() && names[i] == names[j]
}

fn count_overlap_clusters(names: &Vec<String>) -> (r: usize)
    ensures
        r == overlap_clusters_spec(views_of(names@)),
{
    let mut grep: Vec<String> = Vec::new();
    grep.push("grep".to_owned());
    grep.push("rg".to_owned());
    grep.push("ag".to_owned());
    grep.push("ack".to_owned());
    assert(views_of(grep@) =~= grep_cluster());
    let mut findc: Vec<String> = Vec::new();
    findc.push("find".to_owned());
    findc.push("fd".to_owned());
    assert(views_of(findc@) =~= find_cluster());
    let g = count_present(&grep, names);
    let f = count_present(&findc, names);
    let mut r: usize = 0;
    if g > 1 {
        r = r + 1;
    }
    if f > 1 {
        r = r + 1;
    }
    r
}

fn count_unrestricted_destructive(names: &Vec<String>) -> (r: usize)
    ensures
        r == destructive_count(views_of(names@)),
{
    let mut danger: Vec<String> = Vec::new();
    danger.push("sudo".to_owned());
    danger.push("mkfs".to_owned());
    danger.push("fdisk".to_owned());
    danger.push("rm".to_owned());
    danger.push("shutdown".to_owned());
    assert(views_of(danger@) =~= dangerous_tools());
    let n = names.len();
    let mut r: usize = 0;
    let mut i: usize = 0;
    assert(views_of(names@).take(0) =~= Seq::<Seq<char>>::empty());
    while i < n
        invariant
            i <= n,
            r <= i,
            n == names@.len(),
            views_of(danger@) == dangerous_tools(),
            r == destructive_count(views_of(names@).take(i as int)),
        decreases n - i,
    {
        proof {
            let vn = views_of(names@);
            assert(vn.take(i + 1).drop_last() =~= vn.take(i as int));
            assert(vn.take(i + 1).last() == names@[i as int]@);
        }
        if crate::guardrails::contains_string(&danger, &names[i]) {
            r = r + 1;
        }
        i = i + 1;
    }
    assert(views_of(names@).take(n as int) =~= views_of(names@));
    r
}

fn has_duplicates(names: &Vec<String>) -> (r: bool)
    ensures
        r == has_dup(views_of(names@)),
{
    let n = names.len();
    let mut i: usize = 0;
    while i < n
        invariant
            i <= n,
            n == names@.len(),
            forall|p: int, q: int|
                0 <= p < q < names@.len() && p < i ==> views_of(names@)[p] != views_of(names@)[q],
        decreases n - i,
    {
        let mut j: usize = i + 1;
        while j < n
            invariant
                i < j <= n,
                n == names@.len(),
                forall|q: int|
                    i < q < j ==> views_of(names@)[i as int] != #[trigger] views_of(names@)[q],
            decreases n - j,
        {
            if names[i] == names[j] {
                assert(views_of(names@)[i as int] == views_of(names@)[j as int]);
                return true;
            }
            j = j + 1;
        }
        i = i + 1;
    }
    false
}

/// Derives the tool signals from configuration: collect the configured
/// names (or the built-in inventory when none are configured), normalize
/// and sort them, then measure overlap, destructive exposure and
/// duplicates.
pub fn detect_tools(config: Option<&HarnessConfig>) -> (r: ToolSignals)
    ensures
        ({
            let raw: Seq<Seq<char>> = match config {
                Option::Some(c) => if config_tool_views(c).len() == 0 {
                    default_tool_views()
                } else {
                    config_tool_views(c)
                },
                Option::None => default_tool_views(),
            };
            let names = views_of(r.tool_names@);
            &&& names.to_multiset() == normalized_views(raw).to_multiset()
            &&& lex_sorted(names)
            &&& r.risky_overlap_clusters == overlap_clusters_spec(names)
            &&& r.unrestricted_destructive == destructive_count(names)
            &&& r.has_ambiguous_duplicates == has_dup(names)
        }),
{
    let mut tool_names: Vec<String> = match config {
        Option::Some(c) => collect_config_tools(c),
        Option::None => default_tool_names(),
    };
    if tool_names.len() == 0 {
        tool_names = default_tool_names();
    }
    normalize_tool_list(&mut tool_names);
    let risky_overlap_clusters = count_overlap_clusters(&tool_names);
    let unrestricted_destructive = count_unrestricted_destructive(&tool_names);
    let has_ambiguous_duplicates = has_duplicates(&tool_names);
    ToolSignals {
        tool_names,
        risky_overlap_clusters,
        unrestricted_destructive,
        has_ambiguous_duplicates,
    }
}

/// Derives the quality signals from materialized filesystem facts: the
/// file paths under the root and the presence of the workflow directory
/// and lint configuration files.
pub fn quality_signals(
    files: &Vec<String>,
    workflows_dir_exists: bool,
    has_rustfmt_toml: bool,
    has_dot_clippy_toml: bool,
    has_clippy_toml: bool,
) -> (r: QualitySignals)
    ensures
        r.has_ci_workflow == (workflows_dir_exists && exists|i: int|
            0 <= i < files@.len() && has_sub(#[trigger] files@[i]@, ".github/workflows/"@)),
        r.has_tests == (exists|i: int|
            0 <= i < files@.len() && (ends_with(#[trigger] files@[i]@, "_test.rs"@) || ends_with(
                files@[i]@,
                "_spec.rs"@,
            ) || has_sub(files@[i]@, "/tests/"@))),
        r.has_lint_config == (has_rustfmt_toml || has_dot_clippy_toml || has_clippy_toml),
{
    let n = files.len();
    let mut ci_hit = false;
    let mut test_hit = false;
    let mut i: usize = 0;
    while i < n
        invariant
            i <= n,
            n == files@.len(),
            ci_hit == (exists|p: int|
                0 <= p < i && has_sub(#[trigger] files@[p]@, ".github/workflows/"@)),
            test_hit == (exists|p: int|
                0 <= p < i && (ends_with(#[trigger] files@[p]@, "_test.rs"@) || ends_with(
                    files@[p]@,
                    "_spec.rs"@,
                ) || has_sub(files@[p]@, "/tests/"@))),
        decreases n - i,
    {
        let f = files[i].as_str();
        if str_contains(f, ".github/workflows/") {
            ci_hit = true;
        }
        if str_ends_with(f, "_test.rs") || str_ends_with(f, "_spec.rs") || str_contains(
            f,
            "/tests/",
        ) {
            test_hit = true;
        }
        i = i + 1;
    }
    QualitySignals {
        has_ci_workflow: workflows_dir_exists && ci_hit,
        has_tests: test_hit,
        has_lint_config: has_rustfmt_toml || has_dot_clippy_toml || has_clippy_toml,
    }
}

} // verus!
