//! The optimization delta classifier: aggregates trace telemetry by
//! revision, picks the two most recent revisions, gates on data volume and
//! task overlap, and votes three directional signals into one status.
//!
//! Rates, averages and deltas are exact rationals (integer numerator and
//! denominator); thresholds are proportions in thousandths.  Every
//! comparison is decided by cross-multiplication, so no rounding enters the
//! classification.

use crate::guardrails::seq_has;
use crate::strutil::{dec_spec, lex_lt, str_lt, u64_to_string, views_of};
use vstd::prelude::*;

verus! {

/// Upper bound on the number of trace records one classification accepts.
pub const TRACE_LIMIT: usize = 10000000;

/// Upper bound on one record's token estimate.
pub const TOKEN_LIMIT: u64 = 100000000000000;

/// One validated trace record: an execution attempt with its outcome and
/// cost metrics.  The timestamp is epoch milliseconds, resolved upstream so
/// the classifier never reads ambient time.
#[derive(Clone, Debug)]
pub struct TraceRecord {
    pub timestamp: i64,
    pub task_id: String,
    pub revision: String,
    pub outcome: String,
    pub steps: Option<u32>,
    pub token_est: Option<u64>,
}

/// The thresholds that gate and classify an optimization comparison.  The
/// uplift and overlap fields are proportions in thousandths.
#[derive(Clone, Copy, Debug, PartialEq, Eq, Structural)]
pub struct OptimizationThresholds {
    pub min_traces: u32,
    pub min_uplift_abs: u32,
    pub min_uplift_rel: u32,
    pub trace_staleness_days: u32,
    pub task_overlap_threshold: u32,
}

impl OptimizationThresholds {
    /// Proportion fields stay in [0, 1].
    pub open spec fn wf(self) -> bool {
        self.min_uplift_abs <= 1000 && self.min_uplift_rel <= 1000
            && self.task_overlap_threshold <= 1000
    }
}

impl Default for OptimizationThresholds {
    /// The documented defaults: 30 traces, 5% absolute uplift, 10% relative
    /// uplift, 90 days staleness, 50% task overlap.
    fn default() -> (r: Self)
        ensures
            r.min_traces == 30,
            r.min_uplift_abs == 50,
            r.min_uplift_rel == 100,
            r.trace_staleness_days == 90,
            r.task_overlap_threshold == 500,
            r.wf(),
    {
        OptimizationThresholds {
            min_traces: 30,
            min_uplift_abs: 50,
            min_uplift_rel: 100,
            trace_staleness_days: 90,
            task_overlap_threshold: 500,
        }
    }
}

/// The classification of a comparison between two revisions.
#[derive(Clone, Copy, Debug, PartialEq, Eq, Structural)]
pub enum OptimizeDeltaStatus {
    Improvement,
    Regression,
    Neutral,
    InsufficientData,
}

/// An exact rational value; the denominator is always positive.
#[derive(Clone, Copy, Debug, PartialEq, Eq, Structural)]
pub struct Ratio {
    pub num: i128,
    pub den: i128,
}

impl Ratio {
    /// Exactly zero.
    pub fn zero() -> (r: Self)
        ensures
            r.num == 0,
            r.den == 1,
    {
        Ratio { num: 0, den: 1 }
    }
}

/// The result of one optimization comparison.
pub struct OptimizeDelta {
    pub status: OptimizeDeltaStatus,
    pub baseline_revision: Option<String>,
    pub current_revision: Option<String>,
    pub completion_delta: Ratio,
    pub token_delta_rel: Ratio,
    pub step_delta_rel: Ratio,
    pub task_overlap: Ratio,
    pub reason: Option<String>,
}

// --- The mathematical model -------------------------------------------------

/// The distinct revision tags of a trace set, in first-occurrence order.
pub open spec fn rev_list(ts: Seq<TraceRecord>) -> Seq<Seq<char>>
    decreases ts.len(),
{
    if ts.len() == 0 {
        Seq::empty()
    } else {
        let p = rev_list(ts.drop_last());
        if seq_has(p, ts.last().revision@) {
            p
        } else {
            p.push(ts.last().revision@)
        }
    }
}

/// How many records carry revision `r`.
pub open spec fn rev_total(ts: Seq<TraceRecord>, r: Seq<char>) -> int
    decreases ts.len(),
{
    if ts.len() == 0 {
        0
    } else {
        rev_total(ts.drop_last(), r) + if ts.last().revision@ == r {
            1int
        } else {
            0int
        }
    }
}

/// How many records of revision `r` report the outcome "success".
pub open spec fn rev_succ(ts: Seq<TraceRecord>, r: Seq<char>) -> int
    decreases ts.len(),
{
    if ts.len() == 0 {
        0
    } else {
        rev_succ(ts.drop_last(), r) + if ts.last().revision@ == r && ts.last().outcome@
            == "success"@ {
            1int
        } else {
            0int
        }
    }
}

/// How many records of revision `r` report a step count.
pub open spec fn steps_cnt(ts: Seq<TraceRecord>, r: Seq<char>) -> int
    decreases ts.len(),
{
    if ts.len() == 0 {
        0
    } else {
        steps_cnt(ts.drop_last(), r) + if ts.last().revision@ == r && ts.last().steps is Some {
            1int
        } else {
            0int
        }
    }
}

/// The sum of the reported step counts of revision `r`.
pub open spec fn steps_sum(ts: Seq<TraceRecord>, r: Seq<char>) -> int
    decreases ts.len(),
{
    if ts.len() == 0 {
        0
    } else {
        steps_sum(ts.drop_last(), r) + if ts.last().revision@ == r && ts.last().steps is Some {
            ts.last().steps->0 as int
        } else {
            0int
        }
    }
}

/// How many records of revision `r` report a token estimate.
pub open spec fn tokens_cnt(ts: Seq<TraceRecord>, r: Seq<char>) -> int
    decreases ts.len(),
{
    if ts.len() == 0 {
        0
    } else {
        tokens_cnt(ts.drop_last(), r) + if ts.last().revision@ == r && ts.last().token_est
            is Some {
            1int
        } else {
            0int
        }
    }
}

/// The sum of the reported token estimates of revision `r`.
pub open spec fn tokens_sum(ts: Seq<TraceRecord>, r: Seq<char>) -> int
    decreases ts.len(),
{
    if ts.len() == 0 {
        0
    } else {
        tokens_sum(ts.drop_last(), r) + if ts.last().revision@ == r && ts.last().token_est
            is Some {
            ts.last().token_est->0 as int
        } else {
            0int
        }
    }
}

/// The distinct task identifiers of revision `r`, in first-occurrence order.
pub open spec fn tasks_list(ts: Seq<TraceRecord>, r: Seq<char>) -> Seq<Seq<char>>
    decreases ts.len(),
{
    if ts.len() == 0 {
        Seq::empty()
    } else {
        let p = tasks_list(ts.drop_last(), r);
        if ts.last().revision@ == r && !seq_has(p, ts.last().task_id@) {
            p.push(ts.last().task_id@)
        } else {
            p
        }
    }
}

/// The greatest timestamp among records of revision `r` (0 when none).
pub open spec fn latest_ts(ts: Seq<TraceRecord>, r: Seq<char>) -> int
    decreases ts.len(),
{
    if ts.len() == 0 {
        0
    } else {
        let p = latest_ts(ts.drop_last(), r);
        if ts.last().revision@ == r {
            if rev_total(ts.drop_last(), r) == 0 {
                ts.last().timestamp as int
            } else if ts.last().timestamp as int > p {
                ts.last().timestamp as int
            } else {
                p
            }
        } else {
            p
        }
    }
}

/// The recency order on revisions: later greatest timestamp wins, a
/// lexicographically later tag breaks ties.
pub open spec fn rev_key_lt(ts: Seq<TraceRecord>, a: Seq<char>, b: Seq<char>) -> bool {
    latest_ts(ts, a) < latest_ts(ts, b) || (latest_ts(ts, a) == latest_ts(ts, b) && lex_lt(a, b))
}

/// The revision of `revs` greatest under the recency order.
pub open spec fn max_rev(ts: Seq<TraceRecord>, revs: Seq<Seq<char>>) -> Seq<char>
    decreases revs.len(),
{
    if revs.len() <= 1 {
        if revs.len() == 1 {
            revs[0]
        } else {
            Seq::empty()
        }
    } else {
        let m = max_rev(ts, revs.drop_last());
        if rev_key_lt(ts, m, revs.last()) {
            revs.last()
        } else {
            m
        }
    }
}

/// The sequence with the first occurrence of `x` removed.
pub open spec fn seq_remove(v: Seq<Seq<char>>, x: Seq<char>) -> Seq<Seq<char>>
    decreases v.len(),
{
    if v.len() == 0 {
        v
    } else if v[0] == x {
        v.skip(1)
    } else {
        seq![v[0]] + seq_remove(v.skip(1), x)
    }
}

/// How many entries of `base` occur in `other`: the intersection size of
/// two duplicate-free task lists.
pub open spec fn inter_count(base: Seq<Seq<char>>, other: Seq<Seq<char>>) -> int
    decreases base.len(),
{
    if base.len() == 0 {
        0
    } else {
        inter_count(base.drop_last(), other) + if seq_has(other, base.last()) {
            1int
        } else {
            0int
        }
    }
}

/// How many entries of `other` do not occur in `base`.
pub open spec fn missing_count(base: Seq<Seq<char>>, other: Seq<Seq<char>>) -> int
    decreases other.len(),
{
    if other.len() == 0 {
        0
    } else {
        missing_count(base, other.drop_last()) + if seq_has(base, other.last()) {
            0int
        } else {
            1int
        }
    }
}

// --- Supporting lemmas ------------------------------------------------------

/// A revision occurs in the revision list exactly when it tags some record.
pub proof fn lemma_rev_listed(ts: Seq<TraceRecord>, r: Seq<char>)
    ensures
        seq_has(rev_list(ts), r) <==> rev_total(ts, r) > 0,
    decreases ts.len(),
{
    if ts.len() > 0 {
        lemma_rev_listed(ts.drop_last(), r);
        lemma_counts_bounded(ts.drop_last(), r);
        let p = rev_list(ts.drop_last());
        let w = rev_list(ts);
        let x = ts.last().revision@;
        if seq_has(p, x) {
            assert(w == p);
            if x == r {
                assert(rev_total(ts, r) > 0);
                assert(seq_has(w, r));
            }
        } else {
            assert(w == p.push(x));
            assert(w[w.len() - 1] == x);
            if x == r {
                assert(seq_has(w, r));
                assert(rev_total(ts, r) > 0);
            } else {
                if seq_has(w, r) {
                    let i = choose|i: int| 0 <= i < w.len() && w[i] == r;
                    assert(i < p.len());
                    assert(seq_has(p, r));
                }
                if seq_has(p, r) {
                    let i = choose|i: int| 0 <= i < p.len() && p[i] == r;
                    assert(w[i] == r);
                    assert(seq_has(w, r));
                }
            }
        }
    }
}

/// The revision list never repeats a tag.
pub proof fn lemma_rev_list_distinct(ts: Seq<TraceRecord>)
    ensures
        forall|i: int, j: int|
            0 <= i < j < rev_list(ts).len() ==> rev_list(ts)[i] != rev_list(ts)[j],
    decreases ts.len(),
{
    if ts.len() > 0 {
        lemma_rev_list_distinct(ts.drop_last());
        let p = rev_list(ts.drop_last());
        let w = rev_list(ts);
        if !seq_has(p, ts.last().revision@) {
            assert forall|i: int, j: int| 0 <= i < j < w.len() implies w[i] != w[j] by {
                if j == w.len() - 1 {
                    assert(w[i] == p[i]);
                    assert(!seq_has(p, w[j]));
                }
            }
        }
    }
}

/// Counts and sums are bounded by the revision's record count.
pub proof fn lemma_counts_bounded(ts: Seq<TraceRecord>, r: Seq<char>)
    ensures
        0 <= rev_succ(ts, r) <= rev_total(ts, r) <= ts.len(),
        0 <= steps_cnt(ts, r) <= rev_total(ts, r),
        0 <= tokens_cnt(ts, r) <= rev_total(ts, r),
        0 <= steps_sum(ts, r) <= 0xffffffff * rev_total(ts, r),
    decreases ts.len(),
{
    if ts.len() > 0 {
        lemma_counts_bounded(ts.drop_last(), r);
    }
}

/// Token sums are bounded when every record's estimate is.
pub proof fn lemma_tokens_sum_bounded(ts: Seq<TraceRecord>, r: Seq<char>)
    requires
        forall|i: int|
            0 <= i < ts.len() && (#[trigger] ts[i]).token_est is Some ==> ts[i].token_est->0
                <= TOKEN_LIMIT,
    ensures
        0 <= tokens_sum(ts, r) <= TOKEN_LIMIT * rev_total(ts, r),
    decreases ts.len(),
{
    lemma_counts_bounded(ts, r);
    if ts.len() > 0 {
        assert(forall|i: int|
            0 <= i < ts.len() - 1 && (#[trigger] ts.drop_last()[i]).token_est is Some
                ==> ts.drop_last()[i].token_est->0 <= TOKEN_LIMIT);
        lemma_tokens_sum_bounded(ts.drop_last(), r);
        assert(ts.last() == ts[ts.len() - 1]);
    }
}

/// The intersection of a task list with another is never larger than the
/// list itself, and never negative.
pub proof fn lemma_inter_bounded(base: Seq<Seq<char>>, other: Seq<Seq<char>>)
    ensures
        0 <= inter_count(base, other) <= base.len(),
        0 <= missing_count(base, other) <= other.len(),
    decreases base.len() + other.len(),
{
    if base.len() > 0 {
        lemma_inter_bounded(base.drop_last(), other);
    }
    if other.len() > 0 {
        lemma_inter_bounded(base, other.drop_last());
    }
}

/// Task lists are no longer than the record count of their revision.
pub proof fn lemma_tasks_bounded(ts: Seq<TraceRecord>, r: Seq<char>)
    ensures
        tasks_list(ts, r).len() <= rev_total(ts, r),
    decreases ts.len(),
{
    if ts.len() > 0 {
        lemma_tasks_bounded(ts.drop_last(), r);
    }
}


// --- Aggregation ------------------------------------------------------------

/// Per-revision aggregates of one trace set.
pub struct RevMetrics {
    pub revision: String,
    pub total: u64,
    pub success: u64,
    pub steps_sum: u64,
    pub steps_count: u64,
    pub tokens_sum: u128,
    pub tokens_count: u64,
    pub tasks: Vec<String>,
    pub latest_ts: i64,
}

/// Every record's token estimate is within the accepted bound.
pub open spec fn tokens_bounded(ts: Seq<TraceRecord>) -> bool {
    forall|i: int|
        0 <= i < ts.len() && (#[trigger] ts[i]).token_est is Some ==> ts[i].token_est->0
            <= TOKEN_LIMIT
}

/// The metrics list mirrors the revision sequence `revs`, entry by entry,
/// with aggregates taken over the whole of `ts`.
pub open spec fn metrics_match(
    ts: Seq<TraceRecord>,
    ms: Seq<RevMetrics>,
    revs: Seq<Seq<char>>,
) -> bool {
    &&& ms.len() == revs.len()
    &&& forall|i: int|
        0 <= i < ms.len() ==> {
            let r = revs[i];
            &&& (#[trigger] ms[i]).revision@ == r
            &&& ms[i].total == rev_total(ts, r)
            &&& ms[i].success == rev_succ(ts, r)
            &&& ms[i].steps_sum == steps_sum(ts, r)
            &&& ms[i].steps_count == steps_cnt(ts, r)
            &&& ms[i].tokens_sum == tokens_sum(ts, r)
            &&& ms[i].tokens_count == tokens_cnt(ts, r)
            &&& views_of(ms[i].tasks@) == tasks_list(ts, r)
            &&& ms[i].latest_ts == latest_ts(ts, r)
        }
}

fn find_rev(ms: &Vec<RevMetrics>, rev: &String) -> (r: Option<usize>)
    ensures
        match r {
            Option::Some(j) => j < ms@.len() && ms@[j as int].revision@ == rev@,
            Option::None => forall|w: int|
                0 <= w < ms@.len() ==> (#[trigger] ms@[w]).revision@ != rev@,
        },
{
    let n = ms.len();
    let mut w: usize = 0;
    while w < n
        invariant
            w <= n,
            n == ms@.len(),
            forall|t: int| 0 <= t < w ==> (#[trigger] ms@[t]).revision@ != rev@,
        decreases n - w,
    {
        if ms[w].revision == *rev {
            return Some(w);
        }
        w = w + 1;
    }
    None
}

/// Folds the trace records into one metrics entry per revision, in
/// first-occurrence order.
fn aggregate(traces: &Vec<TraceRecord>) -> (ms: Vec<RevMetrics>)
    requires
        traces@.len() <= TRACE_LIMIT,
        tokens_bounded(traces@),
    ensures
        metrics_match(traces@, ms@, rev_list(traces@)),
{
    let success_word: String = "success".to_owned();
    let n = traces.len();
    let mut ms: Vec<RevMetrics> = Vec::new();
    let mut i: usize = 0;
    assert(metrics_match(traces@.take(0), ms@, rev_list(traces@.take(0)))) by {
        assert(traces@.take(0) =~= Seq::<TraceRecord>::empty());
    }
    while i < n
        invariant
            i <= n,
            n == traces@.len(),
            n <= TRACE_LIMIT,
            tokens_bounded(traces@),
            success_word@ == "success"@,
            metrics_match(traces@.take(i as int), ms@, rev_list(traces@.take(i as int))),
        decreases n - i,
    {
        let ghost pre = traces@.take(i as int);
        let ghost post = traces@.take(i + 1);
        proof {
            assert(post.drop_last() =~= pre);
            assert(post.last() == traces@[i as int]);
            lemma_rev_list_distinct(pre);
        }
        let t = &traces[i];
        let ghost rt = t.revision@;
        match find_rev(&ms, &t.revision) {
            Option::Some(j) => {
                let ghost ms_pre = ms@;
                proof {
                    assert(seq_has(rev_list(pre), rt)) by {
                        assert(rev_list(pre)[j as int] == rt);
                    }
                    assert(rev_list(post) == rev_list(pre));
                    lemma_rev_listed(pre, rt);
                    lemma_counts_bounded(pre, rt);
                    lemma_tokens_sum_bounded(pre, rt);
                    assert(rev_total(pre, rt) <= TRACE_LIMIT);
                }
                let mut entry = ms.remove(j);
                entry.total = entry.total + 1;
                if t.outcome == success_word {
                    entry.success = entry.success + 1;
                }
                match t.steps {
                    Option::Some(v) => {
                        entry.steps_sum = entry.steps_sum + v as u64;
                        entry.steps_count = entry.steps_count + 1;
                    },
                    Option::None => {},
                }
                match t.token_est {
                    Option::Some(v) => {
                        entry.tokens_sum = entry.tokens_sum + v as u128;
                        entry.tokens_count = entry.tokens_count + 1;
                    },
                    Option::None => {},
                }
                if !crate::guardrails::contains_string(&entry.tasks, &t.task_id) {
                    let ghost tl = views_of(entry.tasks@);
                    entry.tasks.push(t.task_id.clone());
                    assert(views_of(entry.tasks@) =~= tl.push(t.task_id@));
                }
                if t.timestamp > entry.latest_ts {
                    entry.latest_ts = t.timestamp;
                }
                let ghost e = entry;
                ms.insert(j, entry);
                proof {
                    assert(ms@ =~= ms_pre.update(j as int, e));
                    assert forall|w: int| 0 <= w < ms@.len() implies {
                        let r = rev_list(post)[w];
                        &&& (#[trigger] ms@[w]).revision@ == r
                        &&& ms@[w].total == rev_total(post, r)
                        &&& ms@[w].success == rev_succ(post, r)
                        &&& ms@[w].steps_sum == steps_sum(post, r)
                        &&& ms@[w].steps_count == steps_cnt(post, r)
                        &&& ms@[w].tokens_sum == tokens_sum(post, r)
                        &&& ms@[w].tokens_count == tokens_cnt(post, r)
                        &&& views_of(ms@[w].tasks@) == tasks_list(post, r)
                        &&& ms@[w].latest_ts == latest_ts(post, r)
                    } by {
                        let r = rev_list(post)[w];
                        if w != j {
                            assert(ms@[w] == ms_pre[w]);
                            assert(rev_list(pre)[j as int] == rt);
                            assert(r != rt);
                        } else {
                            assert(ms@[w] == e);
                            assert(r == rt);
                        }
                    }
                }
            },
            Option::None => {
                proof {
                    assert(!seq_has(rev_list(pre), rt)) by {
                        if seq_has(rev_list(pre), rt) {
                            let w = choose|w: int|
                                0 <= w < rev_list(pre).len() && rev_list(pre)[w] == rt;
                            assert(ms@[w].revision@ == rt);
                        }
                    }
                    assert(rev_list(post) == rev_list(pre).push(rt));
                    lemma_rev_listed(pre, rt);
                    lemma_counts_bounded(pre, rt);
                    lemma_tokens_sum_bounded(pre, rt);
                    lemma_tasks_bounded(pre, rt);
                    assert(rev_total(pre, rt) == 0);
                }
                let success: u64 = if t.outcome == success_word {
                    1
                } else {
                    0
                };
                let (ssum, scnt): (u64, u64) = match t.steps {
                    Option::Some(v) => (v as u64, 1),
                    Option::None => (0, 0),
                };
                let (tsum, tcnt): (u128, u64) = match t.token_est {
                    Option::Some(v) => (v as u128, 1),
                    Option::None => (0, 0),
                };
                let mut tasks: Vec<String> = Vec::new();
                tasks.push(t.task_id.clone());
                let entry = RevMetrics {
                    revision: t.revision.clone(),
                    total: 1,
                    success,
                    steps_sum: ssum,
                    steps_count: scnt,
                    tokens_sum: tsum,
                    tokens_count: tcnt,
                    tasks,
                    latest_ts: t.timestamp,
                };
                let ghost e = entry;
                let ghost ms_pre = ms@;
                ms.push(entry);
                proof {
                    assert(tasks_list(pre, rt) =~= Seq::<Seq<char>>::empty());
                    assert(views_of(e.tasks@) =~= tasks_list(post, rt));
                    assert forall|w: int| 0 <= w < ms@.len() implies {
                        let r = rev_list(post)[w];
                        &&& (#[trigger] ms@[w]).revision@ == r
                        &&& ms@[w].total == rev_total(post, r)
                        &&& ms@[w].success == rev_succ(post, r)
                        &&& ms@[w].steps_sum == steps_sum(post, r)
                        &&& ms@[w].steps_count == steps_cnt(post, r)
                        &&& ms@[w].tokens_sum == tokens_sum(post, r)
                        &&& ms@[w].tokens_count == tokens_cnt(post, r)
                        &&& views_of(ms@[w].tasks@) == tasks_list(post, r)
                        &&& ms@[w].latest_ts == latest_ts(post, r)
                    } by {
                        let r = rev_list(post)[w];
                        if w < ms_pre.len() {
                            assert(ms@[w] == ms_pre[w]);
                            assert(r == rev_list(pre)[w]);
                            assert(r != rt) by {
                                if r == rt {
                                    assert(seq_has(rev_list(pre), rt));
                                }
                            }
                        } else {
                            assert(ms@[w] == e);
                            assert(r == rt);
                        }
                    }
                }
            },
        }
        i = i + 1;
    }
    proof {
        assert(traces@.take(n as int) =~= traces@);
    }
    ms
}


// --- Selection and classification -------------------------------------------

/// Removing a value from a sequence in which it occurs exactly once is
/// removal at its index.
proof fn lemma_seq_remove_index(v: Seq<Seq<char>>, x: Seq<char>, c: int)
    requires
        0 <= c < v.len(),
        v[c] == x,
        forall|j: int| 0 <= j < v.len() && j != c ==> v[j] != x,
    ensures
        seq_remove(v, x) == v.remove(c),
    decreases c,
{
    if c == 0 {
        assert(seq_remove(v, x) == v.skip(1));
        assert(v.skip(1) =~= v.remove(0));
    } else {
        assert(v[0] != x);
        let t = v.skip(1);
        assert(t[c - 1] == x);
        assert(forall|j: int| 0 <= j < t.len() && j != c - 1 ==> t[j] == v[j + 1] && t[j] != x);
        lemma_seq_remove_index(t, x, c - 1);
        assert(seq_remove(v, x) == seq![v[0]] + t.remove(c - 1));
        assert(seq![v[0]] + t.remove(c - 1) =~= v.remove(c));
    }
}

fn key_lt_exec(a: &RevMetrics, b: &RevMetrics) -> (r: bool)
    ensures
        r == (a.latest_ts < b.latest_ts || (a.latest_ts == b.latest_ts && lex_lt(
            a.revision@,
            b.revision@,
        ))),
{
    if a.latest_ts < b.latest_ts {
        true
    } else if a.latest_ts == b.latest_ts {
        str_lt(a.revision.as_str(), b.revision.as_str())
    } else {
        false
    }
}

fn argmax_rev(
    ms: &Vec<RevMetrics>,
    Ghost(ts): Ghost<Seq<TraceRecord>>,
    Ghost(revs): Ghost<Seq<Seq<char>>>,
) -> (c: usize)
    requires
        ms@.len() >= 1,
        metrics_match(ts, ms@, revs),
    ensures
        c < ms@.len(),
        revs[c as int] == max_rev(ts, revs),
{
    let n = ms.len();
    let mut c: usize = 0;
    let mut k: usize = 1;
    proof {
        assert(revs.take(1)[0] == revs[0]);
        assert(max_rev(ts, revs.take(1)) == revs[0]);
    }
    while k < n
        invariant
            c < k <= n,
            n == ms@.len(),
            metrics_match(ts, ms@, revs),
            revs[c as int] == max_rev(ts, revs.take(k as int)),
        decreases n - k,
    {
        proof {
            let pk = revs.take(k as int);
            let pk1 = revs.take(k + 1);
            assert(pk1.drop_last() =~= pk);
            assert(pk1.last() == revs[k as int]);
        }
        if key_lt_exec(&ms[c], &ms[k]) {
            proof {
                assert(rev_key_lt(ts, revs[c as int], revs[k as int]));
            }
            c = k;
        } else {
            proof {
                assert(!rev_key_lt(ts, revs[c as int], revs[k as int]));
            }
        }
        k = k + 1;
    }
    proof {
        assert(revs.take(n as int) =~= revs);
    }
    c
}

/// The product of two nonnegative bounded values is bounded by the product
/// of the bounds; discharges the overflow obligations of the
/// cross-multiplied comparisons.
proof fn lemma_mul_bound(a: int, b: int, ah: int, bh: int)
    requires
        0 <= a <= ah,
        0 <= b <= bh,
    ensures
        0 <= a * b <= ah * bh,
{
    assert(0 <= a * b <= ah * bh) by (nonlinear_arith)
        requires
            0 <= a <= ah,
            0 <= b <= bh,
    ;
}

// --- The classification model ----------------------------------------------

/// The relative change from `bn/bd` to `cn/cd`, or zero when the baseline
/// is zero (the divide-by-zero guard).
pub open spec fn spec_rel_delta(bn: int, bd: int, cn: int, cd: int) -> (int, int) {
    if bn == 0 {
        (0, 1)
    } else {
        (cn * bd - bn * cd, bn * cd)
    }
}

/// The completion signal: +1 when the absolute completion delta reaches the
/// uplift threshold, -1 when it falls that far, else 0.
pub open spec fn spec_signal_abs(num: int, den: int, a: int) -> int {
    if num * 1000 >= a * den {
        1
    } else if num * 1000 <= -(a * den) {
        -1
    } else {
        0
    }
}

/// The cost signals: fewer tokens or steps count as improvement, so the
/// sign is inverted.
pub open spec fn spec_signal_rel(num: int, den: int, rl: int) -> int {
    if num * 1000 <= -(rl * den) {
        1
    } else if num * 1000 >= rl * den {
        -1
    } else {
        0
    }
}

/// The ghost shape of a classification result.
pub struct DeltaModel {
    pub status: OptimizeDeltaStatus,
    pub baseline: Option<Seq<char>>,
    pub current: Option<Seq<char>>,
    pub completion: (int, int),
    pub token_rel: (int, int),
    pub step_rel: (int, int),
    pub overlap: (int, int),
    pub reason: Option<Seq<char>>,
}

impl OptimizeDelta {
    /// The ghost view of this result.
    pub open spec fn model(self) -> DeltaModel {
        DeltaModel {
            status: self.status,
            baseline: match self.baseline_revision {
                Option::Some(s) => Some(s@),
                Option::None => None,
            },
            current: match self.current_revision {
                Option::Some(s) => Some(s@),
                Option::None => None,
            },
            completion: (self.completion_delta.num as int, self.completion_delta.den as int),
            token_rel: (self.token_delta_rel.num as int, self.token_delta_rel.den as int),
            step_rel: (self.step_delta_rel.num as int, self.step_delta_rel.den as int),
            overlap: (self.task_overlap.num as int, self.task_overlap.den as int),
            reason: match self.reason {
                Option::Some(s) => Some(s@),
                Option::None => None,
            },
        }
    }
}

/// The reason reported when fewer than two revisions have data.
pub open spec fn reason_two_revisions() -> Seq<char> {
    "need traces from at least two revisions"@
}

/// The reason reported when a revision has too few traces.
pub open spec fn reason_min_traces(m: int, b: int, c: int) -> Seq<char> {
    "need at least "@ + dec_spec(m) + " traces per revision (baseline="@ + dec_spec(b)
        + ", current="@ + dec_spec(c) + ")"@
}

/// The reason reported when task overlap is below the threshold; both
/// proportions are shown with two decimal places, rounded half up.
pub open spec fn reason_overlap(ov_cent: int, th_cent: int) -> Seq<char> {
    "task overlap "@ + crate::strutil::cent_spec(ov_cent) + " is below threshold "@
        + crate::strutil::cent_spec(th_cent)
}

/// The reason reported for a neutral classification.
pub open spec fn reason_neutral() -> Seq<char> {
    "changes are below configured uplift thresholds"@
}

/// The overlap ratio rounded to hundredths, half up.
pub open spec fn spec_ratio_cent(num: int, den: int) -> int {
    (200 * num + den) / (2 * den)
}

/// The full classification of a trace set under the given thresholds.
pub open spec fn spec_delta(ts: Seq<TraceRecord>, th: OptimizationThresholds) -> DeltaModel {
    let revs = rev_list(ts);
    if revs.len() < 2 {
        DeltaModel {
            status: OptimizeDeltaStatus::InsufficientData,
            baseline: None,
            current: None,
            completion: (0, 1),
            token_rel: (0, 1),
            step_rel: (0, 1),
            overlap: (0, 1),
            reason: Some(reason_two_revisions()),
        }
    } else {
        let cur = max_rev(ts, revs);
        let base = max_rev(ts, seq_remove(revs, cur));
        let tb = rev_total(ts, base);
        let tc = rev_total(ts, cur);
        if tb < th.min_traces as int || tc < th.min_traces as int {
            DeltaModel {
                status: OptimizeDeltaStatus::InsufficientData,
                baseline: Some(base),
                current: Some(cur),
                completion: (0, 1),
                token_rel: (0, 1),
                step_rel: (0, 1),
                overlap: (0, 1),
                reason: Some(reason_min_traces(th.min_traces as int, tb, tc)),
            }
        } else {
            let bt = tasks_list(ts, base);
            let ct = tasks_list(ts, cur);
            let inter = inter_count(bt, ct);
            let uni = bt.len() + missing_count(bt, ct);
            let ov = if uni == 0 {
                (0int, 1int)
            } else {
                (inter, uni as int)
            };
            if ov.0 * 1000 < th.task_overlap_threshold as int * ov.1 {
                DeltaModel {
                    status: OptimizeDeltaStatus::InsufficientData,
                    baseline: Some(base),
                    current: Some(cur),
                    completion: (0, 1),
                    token_rel: (0, 1),
                    step_rel: (0, 1),
                    overlap: ov,
                    reason: Some(
                        reason_overlap(
                            spec_ratio_cent(ov.0, ov.1),
                            (th.task_overlap_threshold as int + 5) / 10,
                        ),
                    ),
                }
            } else {
                let comp = (rev_succ(ts, cur) * tb - rev_succ(ts, base) * tc, tc * tb);
                let btc = if tokens_cnt(ts, base) == 0 {
                    1int
                } else {
                    tokens_cnt(ts, base)
                };
                let ctc = if tokens_cnt(ts, cur) == 0 {
                    1int
                } else {
                    tokens_cnt(ts, cur)
                };
                let tok = spec_rel_delta(tokens_sum(ts, base), btc, tokens_sum(ts, cur), ctc);
                let bsc = if steps_cnt(ts, base) == 0 {
                    1int
                } else {
                    steps_cnt(ts, base)
                };
                let csc = if steps_cnt(ts, cur) == 0 {
                    1int
                } else {
                    steps_cnt(ts, cur)
                };
                let stp = spec_rel_delta(steps_sum(ts, base), bsc, steps_sum(ts, cur), csc);
                let total = spec_signal_abs(comp.0, comp.1, th.min_uplift_abs as int)
                    + spec_signal_rel(tok.0, tok.1, th.min_uplift_rel as int) + spec_signal_rel(
                    stp.0,
                    stp.1,
                    th.min_uplift_rel as int,
                );
                DeltaModel {
                    status: if total > 0 {
                        OptimizeDeltaStatus::Improvement
                    } else if total < 0 {
                        OptimizeDeltaStatus::Regression
                    } else {
                        OptimizeDeltaStatus::Neutral
                    },
                    baseline: Some(base),
                    current: Some(cur),
                    completion: comp,
                    token_rel: tok,
                    step_rel: stp,
                    overlap: ov,
                    reason: if total == 0 {
                        Some(reason_neutral())
                    } else {
                        None
                    },
                }
            }
        }
    }
}


// --- Execution --------------------------------------------------------------

fn count_common(base: &Vec<String>, other: &Vec<String>) -> (r: usize)
    ensures
        r == inter_count(views_of(base@), views_of(other@)),
        r <= base@.len(),
{
    let n = base.len();
    let mut r: usize = 0;
    let mut i: usize = 0;
    assert(views_of(base@).take(0) =~= Seq::<Seq<char>>::empty());
    while i < n
        invariant
            i <= n,
            r <= i,
            n == base@.len(),
            r == inter_count(views_of(base@).take(i as int), views_of(other@)),
        decreases n - i,
    {
        proof {
            let vb = views_of(base@);
            assert(vb.take(i + 1).drop_last() =~= vb.take(i as int));
            assert(vb.take(i + 1).last() == base@[i as int]@);
        }
        if crate::guardrails::contains_string(other, &base[i]) {
            r = r + 1;
        }
        i = i + 1;
    }
    assert(views_of(base@).take(n as int) =~= views_of(base@));
    r
}

fn count_missing(base: &Vec<String>, other: &Vec<String>) -> (r: usize)
    ensures
        r == missing_count(views_of(base@), views_of(other@)),
        r <= other@.len(),
{
    let n = other.len();
    let mut r: usize = 0;
    let mut i: usize = 0;
    assert(views_of(other@).take(0) =~= Seq::<Seq<char>>::empty());
    while i < n
        invariant
            i <= n,
            r <= i,
            n == other@.len(),
            r == missing_count(views_of(base@), views_of(other@).take(i as int)),
        decreases n - i,
    {
        proof {
            let vo = views_of(other@);
            assert(vo.take(i + 1).drop_last() =~= vo.take(i as int));
            assert(vo.take(i + 1).last() == other@[i as int]@);
        }
        if !crate::guardrails::contains_string(base, &other[i]) {
            r = r + 1;
        }
        i = i + 1;
    }
    assert(views_of(other@).take(n as int) =~= views_of(other@));
    r
}

/// The Jaccard similarity of two duplicate-free task lists, as an exact
/// ratio; by convention exactly zero when both lists are empty.
pub fn compute_task_overlap(a: &Vec<String>, b: &Vec<String>) -> (r: Ratio)
    requires
        a@.len() <= TRACE_LIMIT,
        b@.len() <= TRACE_LIMIT,
    ensures
        ({
            let inter = inter_count(views_of(a@), views_of(b@));
            let uni = a@.len() + missing_count(views_of(a@), views_of(b@));
            if uni == 0 {
                r.num == 0 && r.den == 1
            } else {
                r.num == inter && r.den == uni
            }
        }),
        1 <= r.den <= a@.len() + b@.len() + 1,
        0 <= r.num <= r.den,
{
    let inter = count_common(a, b);
    let missing = count_missing(a, b);
    let uni = a.len() + missing;
    proof {
        lemma_inter_bounded(views_of(a@), views_of(b@));
    }
    if uni == 0 {
        Ratio { num: 0, den: 1 }
    } else {
        Ratio { num: inter as i128, den: uni as i128 }
    }
}

fn signal_abs(num: i128, den: i128, thr: u32) -> (s: i64)
    requires
        1 <= den <= 0x10000000000000000000000000000,
        -0x10000000000000000000000000000 <= num <= 0x10000000000000000000000000000,
        thr <= 1000,
    ensures
        s == spec_signal_abs(num as int, den as int, thr as int),
{
    proof {
        lemma_mul_bound(thr as int, den as int, 1000, 0x10000000000000000000000000000);
    }
    if num * 1000 >= thr as i128 * den {
        1
    } else if num * 1000 <= -(thr as i128 * den) {
        -1
    } else {
        0
    }
}

fn signal_rel(num: i128, den: i128, thr: u32) -> (s: i64)
    requires
        1 <= den <= 0x10000000000000000000000000000,
        -0x10000000000000000000000000000 <= num <= 0x10000000000000000000000000000,
        thr <= 1000,
    ensures
        s == spec_signal_rel(num as int, den as int, thr as int),
{
    proof {
        lemma_mul_bound(thr as int, den as int, 1000, 0x10000000000000000000000000000);
    }
    if num * 1000 <= -(thr as i128 * den) {
        1
    } else if num * 1000 >= thr as i128 * den {
        -1
    } else {
        0
    }
}

/// The relative change from `baseline` to `current`, exactly zero when the
/// baseline is zero: the divide-by-zero guard never divides.
pub fn relative_delta(baseline: Ratio, current: Ratio) -> (r: Ratio)
    requires
        0 <= baseline.num <= 0x100000000000000000000,
        1 <= baseline.den <= 0x1000000,
        -0x100000000000000000000 <= current.num <= 0x100000000000000000000,
        1 <= current.den <= 0x1000000,
    ensures
        (r.num as int, r.den as int) == spec_rel_delta(
            baseline.num as int,
            baseline.den as int,
            current.num as int,
            current.den as int,
        ),
        r.den >= 1,
        baseline.num == 0 ==> r.num == 0 && r.den == 1,
{
    if baseline.num == 0 {
        Ratio { num: 0, den: 1 }
    } else {
        proof {
            lemma_mul_bound(baseline.num as int, current.den as int, 0x100000000000000000000, 0x1000000);
            assert(-(0x100000000000000000000 * 0x1000000) <= current.num * baseline.den <= 0x100000000000000000000 * 0x1000000) by (nonlinear_arith)
                requires
                    -0x100000000000000000000 <= current.num <= 0x100000000000000000000,
                    1 <= baseline.den <= 0x1000000,
            ;
            assert(baseline.num * current.den >= 1) by (nonlinear_arith)
                requires
                    baseline.num >= 1,
                    current.den >= 1,
            ;
        }
        Ratio {
            num: current.num * baseline.den - baseline.num * current.den,
            den: baseline.num * current.den,
        }
    }
}

fn build_reason_min_traces(m: u32, b: u64, c: u64) -> (r: String)
    ensures
        r@ == reason_min_traces(m as int, b as int, c as int),
{
    let mut r = String::new();
    r.append("need at least ");
    let ms = u64_to_string(m as u64);
    r.append(ms.as_str());
    r.append(" traces per revision (baseline=");
    let bs = u64_to_string(b);
    r.append(bs.as_str());
    r.append(", current=");
    let cs = u64_to_string(c);
    r.append(cs.as_str());
    r.append(")");
    assert(r@ =~= reason_min_traces(m as int, b as int, c as int));
    r
}

fn build_reason_overlap(ovc: u64, thc: u32) -> (r: String)
    ensures
        r@ == reason_overlap(ovc as int, thc as int),
{
    let mut r = String::new();
    r.append("task overlap ");
    let os = crate::strutil::cent_to_string(ovc);
    r.append(os.as_str());
    r.append(" is below threshold ");
    let ts = crate::strutil::cent_to_string(thc as u64);
    r.append(ts.as_str());
    assert(r@ =~= reason_overlap(ovc as int, thc as int));
    r
}

/// Classifies the change between the two most recent revisions in a trace
/// set: aggregate per revision, gate on revision count, per-revision trace
/// volume and task overlap, then vote the three directional signals.
/// Every gate failure short-circuits to `InsufficientData` with a reason
/// naming the failed precondition and its numbers.
#[verifier::rlimit(100)]
pub fn compute_optimize_delta(traces: &Vec<TraceRecord>, th: &OptimizationThresholds) -> (d:
    OptimizeDelta)
    requires
        traces@.len() <= TRACE_LIMIT,
        tokens_bounded(traces@),
        th.wf(),
    ensures
        d.model() == spec_delta(traces@, *th),
{
    let ghost ts = traces@;
    let ghost revs = rev_list(ts);
    let mut ms = aggregate(traces);
    if ms.len() < 2 {
        let d = OptimizeDelta {
            status: OptimizeDeltaStatus::InsufficientData,
            baseline_revision: None,
            current_revision: None,
            completion_delta: Ratio::zero(),
            token_delta_rel: Ratio::zero(),
            step_delta_rel: Ratio::zero(),
            task_overlap: Ratio::zero(),
            reason: Some("need traces from at least two revisions".to_owned()),
        };
        return d;
    }
    proof {
        lemma_rev_list_distinct(ts);
    }
    let c_idx = argmax_rev(&ms, Ghost(ts), Ghost(revs));
    let ghost cur = revs[c_idx as int];
    let ghost ms_full = ms@;
    let cur_m = ms.remove(c_idx);
    let ghost rem = revs.remove(c_idx as int);
    proof {
        assert(cur_m == ms_full[c_idx as int]);
        lemma_seq_remove_index(revs, cur, c_idx as int);
        assert(rem == seq_remove(revs, cur));
        assert(metrics_match(ts, ms@, rem)) by {
            assert forall|w: int| 0 <= w < ms@.len() implies ms@[w] == ms_full[
                if w < c_idx as int {
                    w
                } else {
                    w + 1
                }
            ] && rem[w] == revs[
                if w < c_idx as int {
                    w
                } else {
                    w + 1
                }
            ] by {}
        }
    }
    let b_idx = argmax_rev(&ms, Ghost(ts), Ghost(rem));
    let ghost base = rem[b_idx as int];
    let base_m = ms.remove(b_idx);
    proof {
        assert(base == max_rev(ts, seq_remove(revs, cur)));
        assert(cur_m.total == rev_total(ts, cur));
        assert(base_m.total == rev_total(ts, base));
        lemma_counts_bounded(ts, cur);
        lemma_counts_bounded(ts, base);
        lemma_tokens_sum_bounded(ts, cur);
        lemma_tokens_sum_bounded(ts, base);
        lemma_tasks_bounded(ts, cur);
        lemma_tasks_bounded(ts, base);
        assert(seq_has(revs, cur));
        assert(seq_has(revs, base)) by {
            if b_idx < c_idx {
                assert(rem[b_idx as int] == revs[b_idx as int]);
            } else {
                assert(rem[b_idx as int] == revs[b_idx + 1]);
            }
        }
        lemma_rev_listed(ts, cur);
        lemma_rev_listed(ts, base);
        assert(base_m.tasks@.len() == tasks_list(ts, base).len());
        assert(cur_m.tasks@.len() == tasks_list(ts, cur).len());
    }
    if base_m.total < th.min_traces as u64 || cur_m.total < th.min_traces as u64 {
        let reason = build_reason_min_traces(th.min_traces, base_m.total, cur_m.total);
        let d = OptimizeDelta {
            status: OptimizeDeltaStatus::InsufficientData,
            baseline_revision: Some(base_m.revision),
            current_revision: Some(cur_m.revision),
            completion_delta: Ratio::zero(),
            token_delta_rel: Ratio::zero(),
            step_delta_rel: Ratio::zero(),
            task_overlap: Ratio::zero(),
            reason: Some(reason),
        };
        return d;
    }
    let overlap = compute_task_overlap(&base_m.tasks, &cur_m.tasks);
    let thr_over = th.task_overlap_threshold;
    proof {
        lemma_mul_bound(thr_over as int, overlap.den as int, 1000, 0x2000001);
        lemma_mul_bound(overlap.num as int, 1000, 0x2000001, 1000);
    }
    if overlap.num * 1000 < thr_over as i128 * overlap.den {
        proof {
            assert(0 <= (200 * overlap.num + overlap.den) / (2 * overlap.den) <= 100)
                by (nonlinear_arith)
                requires
                    0 <= overlap.num <= overlap.den,
                    1 <= overlap.den,
            ;
        }
        let ovc = ((200 * overlap.num + overlap.den) / (2 * overlap.den)) as u64;
        let reason = build_reason_overlap(ovc, (thr_over + 5) / 10);
        let d = OptimizeDelta {
            status: OptimizeDeltaStatus::InsufficientData,
            baseline_revision: Some(base_m.revision),
            current_revision: Some(cur_m.revision),
            completion_delta: Ratio::zero(),
            token_delta_rel: Ratio::zero(),
            step_delta_rel: Ratio::zero(),
            task_overlap: overlap,
            reason: Some(reason),
        };
        return d;
    }
    let tb = base_m.total as i128;
    let tc = cur_m.total as i128;
    proof {
        lemma_mul_bound(cur_m.success as int, tb as int, TRACE_LIMIT as int, TRACE_LIMIT as int);
        lemma_mul_bound(base_m.success as int, tc as int, TRACE_LIMIT as int, TRACE_LIMIT as int);
        lemma_mul_bound(tc as int, tb as int, TRACE_LIMIT as int, TRACE_LIMIT as int);
        assert(tc * tb >= 1) by (nonlinear_arith)
            requires
                tc >= 1,
                tb >= 1,
        ;
    }
    let comp = Ratio {
        num: cur_m.success as i128 * tb - base_m.success as i128 * tc,
        den: tc * tb,
    };
    let btc: i128 = if base_m.tokens_count == 0 {
        1
    } else {
        base_m.tokens_count as i128
    };
    let ctc: i128 = if cur_m.tokens_count == 0 {
        1
    } else {
        cur_m.tokens_count as i128
    };
    let tok = relative_delta(
        Ratio { num: base_m.tokens_sum as i128, den: btc },
        Ratio { num: cur_m.tokens_sum as i128, den: ctc },
    );
    let bsc: i128 = if base_m.steps_count == 0 {
        1
    } else {
        base_m.steps_count as i128
    };
    let csc: i128 = if cur_m.steps_count == 0 {
        1
    } else {
        cur_m.steps_count as i128
    };
    let stp = relative_delta(
        Ratio { num: base_m.steps_sum as i128, den: bsc },
        Ratio { num: cur_m.steps_sum as i128, den: csc },
    );
    proof {
        lemma_mul_bound(cur_m.tokens_sum as int, btc as int, 0x100000000000000000000, 0x1000000);
        lemma_mul_bound(base_m.tokens_sum as int, ctc as int, 0x100000000000000000000, 0x1000000);
        lemma_mul_bound(cur_m.steps_sum as int, bsc as int, 0x100000000000000000000, 0x1000000);
        lemma_mul_bound(base_m.steps_sum as int, csc as int, 0x100000000000000000000, 0x1000000);
    }
    let s1 = signal_abs(comp.num, comp.den, th.min_uplift_abs);
    let s2 = signal_rel(tok.num, tok.den, th.min_uplift_rel);
    let s3 = signal_rel(stp.num, stp.den, th.min_uplift_rel);
    let total = s1 + s2 + s3;
    let status = if total > 0 {
        OptimizeDeltaStatus::Improvement
    } else if total < 0 {
        OptimizeDeltaStatus::Regression
    } else {
        OptimizeDeltaStatus::Neutral
    };
    let reason: Option<String> = if total == 0 {
        Some("changes are below configured uplift thresholds".to_owned())
    } else {
        None
    };
    let d = OptimizeDelta {
        status,
        baseline_revision: Some(base_m.revision),
        current_revision: Some(cur_m.revision),
        completion_delta: comp,
        token_delta_rel: tok,
        step_delta_rel: stp,
        task_overlap: overlap,
        reason,
    };
    d
}


// --- Trace screening --------------------------------------------------------

/// One scanned log line, as the upstream reader hands it over: either it
/// failed JSON or timestamp parsing, or it parsed into a record with an
/// already-resolved epoch-millisecond timestamp.
pub enum RawTraceLine {
    Malformed,
    Entry {
        timestamp: i64,
        task_id: Option<String>,
        revision: Option<String>,
        outcome: Option<String>,
        steps: Option<u32>,
        token_est: Option<u64>,
    },
}

/// Counts from one trace scan.
#[derive(Clone, Copy, Debug, PartialEq, Eq, Structural)]
pub struct TraceScanStats {
    pub recent: u64,
    pub stale: u64,
    pub malformed: u64,
}

impl Default for TraceScanStats {
    /// An empty scan.
    fn default() -> (r: Self)
        ensures
            r.recent == 0,
            r.stale == 0,
            r.malformed == 0,
    {
        TraceScanStats { recent: 0, stale: 0, malformed: 0 }
    }
}

/// Whole days between two epoch-millisecond stamps, truncated toward zero
/// as duration day counts are.
pub open spec fn age_days(now: int, ts: int) -> int {
    let diff = now - ts;
    if diff >= 0 {
        diff / 86400000
    } else {
        -((-diff) / 86400000)
    }
}

/// Whether a record timestamp still counts as recent.
pub open spec fn is_recent(now: int, ts: int, max_age_days: int) -> bool {
    age_days(now, ts) <= max_age_days
}

/// How many scanned lines were malformed.
pub open spec fn malformed_count(ls: Seq<RawTraceLine>) -> int
    decreases ls.len(),
{
    if ls.len() == 0 {
        0
    } else {
        malformed_count(ls.drop_last()) + (match ls.last() {
            RawTraceLine::Malformed => 1int,
            _ => 0int,
        })
    }
}

/// How many parsed lines were recent.
pub open spec fn recent_count(ls: Seq<RawTraceLine>, now: int, max_age: int) -> int
    decreases ls.len(),
{
    if ls.len() == 0 {
        0
    } else {
        recent_count(ls.drop_last(), now, max_age) + (match ls.last() {
            RawTraceLine::Entry { timestamp, .. } => if is_recent(now, timestamp as int, max_age) {
                1int
            } else {
                0int
            },
            _ => 0int,
        })
    }
}

/// How many parsed lines were stale.
pub open spec fn stale_count(ls: Seq<RawTraceLine>, now: int, max_age: int) -> int
    decreases ls.len(),
{
    if ls.len() == 0 {
        0
    } else {
        stale_count(ls.drop_last(), now, max_age) + (match ls.last() {
            RawTraceLine::Entry { timestamp, .. } => if !is_recent(now, timestamp as int, max_age) {
                1int
            } else {
                0int
            },
            _ => 0int,
        })
    }
}

/// The ghost shape of a validated trace record.
pub struct TraceModel {
    pub timestamp: int,
    pub task: Seq<char>,
    pub rev: Seq<char>,
    pub outcome: Seq<char>,
    pub steps: Option<u32>,
    pub tokens: Option<u64>,
}

impl TraceRecord {
    /// The ghost view of this record.
    pub open spec fn model(self) -> TraceModel {
        TraceModel {
            timestamp: self.timestamp as int,
            task: self.task_id@,
            rev: self.revision@,
            outcome: self.outcome@,
            steps: self.steps,
            tokens: self.token_est,
        }
    }
}

/// The ghost views of a record list.
pub open spec fn trace_models(s: Seq<TraceRecord>) -> Seq<TraceModel> {
    s.map_values(|t: TraceRecord| t.model())
}

/// The records admitted to aggregation: recent lines carrying a task, a
/// revision and an outcome, in scan order.
pub open spec fn screened(ls: Seq<RawTraceLine>, now: int, max_age: int) -> Seq<TraceModel>
    decreases ls.len(),
{
    if ls.len() == 0 {
        Seq::empty()
    } else {
        screened(ls.drop_last(), now, max_age) + (match ls.last() {
            RawTraceLine::Entry { timestamp, task_id, revision, outcome, steps, token_est } => {
                if is_recent(now, timestamp as int, max_age) {
                    match (task_id, revision, outcome) {
                        (Option::Some(t), Option::Some(rv), Option::Some(o)) => seq![
                            TraceModel {
                                timestamp: timestamp as int,
                                task: t@,
                                rev: rv@,
                                outcome: o@,
                                steps: steps,
                                tokens: token_est,
                            },
                        ],
                        _ => Seq::empty(),
                    }
                } else {
                    Seq::empty()
                }
            },
            _ => Seq::empty(),
        })
    }
}

fn line_is_recent(timestamp: i64, now_ms: i64, max_age_days: u32) -> (r: bool)
    ensures
        r == is_recent(now_ms as int, timestamp as int, max_age_days as int),
{
    let diff: i128 = now_ms as i128 - timestamp as i128;
    let days: i128 = diff / 86400000;
    days <= max_age_days as i128
}

/// Screens scanned log lines against the staleness window: counts recent,
/// stale and malformed lines, and keeps the recent records that carry a
/// task, a revision and an outcome.  A malformed line never aborts the
/// scan.
pub fn screen_traces(lines: &Vec<RawTraceLine>, now_ms: i64, max_age_days: u32) -> (r: (
    TraceScanStats,
    Vec<TraceRecord>,
))
    ensures
        r.0.recent == recent_count(lines@, now_ms as int, max_age_days as int),
        r.0.stale == stale_count(lines@, now_ms as int, max_age_days as int),
        r.0.malformed == malformed_count(lines@),
        trace_models(r.1@) == screened(lines@, now_ms as int, max_age_days as int),
{
    let n = lines.len();
    let mut stats = TraceScanStats::default();
    let mut kept: Vec<TraceRecord> = Vec::new();
    let mut i: usize = 0;
    proof {
        assert(lines@.take(0) =~= Seq::<RawTraceLine>::empty());
        assert(trace_models(kept@) =~= Seq::<TraceModel>::empty());
    }
    while i < n
        invariant
            i <= n,
            n == lines@.len(),
            stats.recent == recent_count(lines@.take(i as int), now_ms as int, max_age_days as int),
            stats.stale == stale_count(lines@.take(i as int), now_ms as int, max_age_days as int),
            stats.malformed == malformed_count(lines@.take(i as int)),
            stats.recent <= i && stats.stale <= i && stats.malformed <= i,
            trace_models(kept@) == screened(lines@.take(i as int), now_ms as int, max_age_days as int),
        decreases n - i,
    {
        proof {
            assert(lines@.take(i + 1).drop_last() =~= lines@.take(i as int));
            assert(lines@.take(i + 1).last() == lines@[i as int]);
        }
        match &lines[i] {
            RawTraceLine::Malformed => {
                stats.malformed = stats.malformed + 1;
            },
            RawTraceLine::Entry { timestamp, task_id, revision, outcome, steps, token_est } => {
                if line_is_recent(*timestamp, now_ms, max_age_days) {
                    stats.recent = stats.recent + 1;
                    match (task_id, revision, outcome) {
                        (Option::Some(t), Option::Some(rv), Option::Some(o)) => {
                            let ghost before = trace_models(kept@);
                            let record = TraceRecord {
                                timestamp: *timestamp,
                                task_id: t.clone(),
                                revision: rv.clone(),
                                outcome: o.clone(),
                                steps: *steps,
                                token_est: *token_est,
                            };
                            kept.push(record);
                            proof {
                                assert(trace_models(kept@) =~= before.push(
                                    TraceModel {
                                        timestamp: *timestamp as int,
                                        task: t@,
                                        rev: rv@,
                                        outcome: o@,
                                        steps: *steps,
                                        tokens: *token_est,
                                    },
                                ));
                                assert(trace_models(kept@) =~= screened(
                                    lines@.take(i + 1),
                                    now_ms as int,
                                    max_age_days as int,
                                ));
                            }
                        },
                        _ => {
                            proof {
                                assert(trace_models(kept@) =~= screened(
                                    lines@.take(i + 1),
                                    now_ms as int,
                                    max_age_days as int,
                                ));
                            }
                        },
                    }
                } else {
                    stats.stale = stats.stale + 1;
                    proof {
                        assert(trace_models(kept@) =~= screened(
                            lines@.take(i + 1),
                            now_ms as int,
                            max_age_days as int,
                        ));
                    }
                }
            },
        }
        i = i + 1;
    }
    proof {
        assert(lines@.take(n as int) =~= lines@);
    }
    (stats, kept)
}

} // verus!
