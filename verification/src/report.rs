//! Findings and ranked recommendations.  Recommendations are ordered by a
//! strict three-key priority: impact descending, then effort ascending, then
//! identifier ascending.

use crate::scoring::{clamp_spec, ScoreCard};
use crate::strutil::{lemma_lex_lt_connected, lemma_lex_lt_irrefl, lemma_lex_lt_trans, lex_lt,
    str_lt};
use vstd::multiset::Multiset;
use vstd::prelude::*;
use vstd::seq_lib::group_to_multiset_ensures;

verus! {

broadcast use group_to_multiset_ensures;

/// How much a recommendation is expected to help.
#[derive(Clone, Copy, Debug, PartialEq, Eq, Structural)]
pub enum Impact {
    Low,
    Medium,
    High,
}

impl Impact {
    /// Higher priority sorts earlier.
    pub open spec fn priority_spec(self) -> int {
        match self {
            Impact::High => 3,
            Impact::Medium => 2,
            Impact::Low => 1,
        }
    }

    /// The numeric priority of this impact level.
    pub fn priority(self) -> (r: u8)
        ensures
            r == self.priority_spec(),
    {
        match self {
            Impact::High => 3,
            Impact::Medium => 2,
            Impact::Low => 1,
        }
    }
}

/// How much work a recommendation takes; less effort sorts earlier.
#[derive(Clone, Copy, Debug, PartialEq, Eq, Structural)]
pub enum Effort {
    Xs,
    S,
    M,
    L,
}

impl Effort {
    /// Lower rank sorts earlier.
    pub open spec fn rank_spec(self) -> int {
        match self {
            Effort::Xs => 1,
            Effort::S => 2,
            Effort::M => 3,
            Effort::L => 4,
        }
    }

    /// The numeric rank of this effort level.
    pub fn rank(self) -> (r: u8)
        ensures
            r == self.rank_spec(),
    {
        match self {
            Effort::Xs => 1,
            Effort::S => 2,
            Effort::M => 3,
            Effort::L => 4,
        }
    }
}

/// How risky it is to apply a recommendation automatically.
#[derive(Clone, Copy, Debug, PartialEq, Eq, Structural)]
pub enum Risk {
    Safe,
    Medium,
    High,
}

/// One detected issue, advisory or blocking.
pub struct Finding {
    pub id: String,
    pub title: String,
    pub body: String,
    pub blocking: bool,
    pub file: Option<String>,
}

/// One actionable suggestion.  Confidence is a proportion in thousandths,
/// clamped into [0, 1000] at construction.
pub struct Recommendation {
    pub id: String,
    pub title: String,
    pub summary: String,
    pub impact: Impact,
    pub effort: Effort,
    pub risk: Risk,
    pub confidence: i64,
}

impl Recommendation {
    /// Builds a recommendation, clamping the confidence.
    pub fn new(
        id: String,
        title: String,
        summary: String,
        impact: Impact,
        effort: Effort,
        risk: Risk,
        confidence: i64,
    ) -> (r: Self)
        ensures
            r.id == id,
            r.title == title,
            r.summary == summary,
            r.impact == impact,
            r.effort == effort,
            r.risk == risk,
            r.confidence == clamp_spec(confidence as int),
    {
        let confidence = crate::scoring::clamp_score(confidence);
        Recommendation { id, title, summary, impact, effort, risk, confidence }
    }
}

/// The ranking preorder: impact descending, effort ascending, identifier
/// ascending.
pub open spec fn rec_le(a: Recommendation, b: Recommendation) -> bool {
    if a.impact.priority_spec() != b.impact.priority_spec() {
        a.impact.priority_spec() > b.impact.priority_spec()
    } else if a.effort.rank_spec() != b.effort.rank_spec() {
        a.effort.rank_spec() < b.effort.rank_spec()
    } else {
        !lex_lt(b.id@, a.id@)
    }
}

/// A recommendation sequence in ranking order.
pub open spec fn recs_sorted(s: Seq<Recommendation>) -> bool {
    forall|i: int, j: int| 0 <= i < j < s.len() ==> rec_le(#[trigger] s[i], #[trigger] s[j])
}

/// No two recommendations share an identifier.
pub open spec fn unique_ids(s: Seq<Recommendation>) -> bool {
    forall|i: int, j: int| 0 <= i < j < s.len() ==> (#[trigger] s[i]).id@ != (#[trigger] s[j]).id@
}

/// The ranking preorder is total.
pub proof fn lemma_rec_le_total(a: Recommendation, b: Recommendation)
    ensures
        rec_le(a, b) || rec_le(b, a),
{
    if a.impact.priority_spec() == b.impact.priority_spec() && a.effort.rank_spec()
        == b.effort.rank_spec() {
        if lex_lt(a.id@, b.id@) && lex_lt(b.id@, a.id@) {
            lemma_lex_lt_trans(a.id@, b.id@, a.id@);
            lemma_lex_lt_irrefl(a.id@);
        }
    }
}

/// The ranking preorder is transitive.
pub proof fn lemma_rec_le_trans(a: Recommendation, b: Recommendation, c: Recommendation)
    requires
        rec_le(a, b),
        rec_le(b, c),
    ensures
        rec_le(a, c),
{
    if a.impact.priority_spec() == c.impact.priority_spec() && a.effort.rank_spec()
        == c.effort.rank_spec() && a.impact.priority_spec() == b.impact.priority_spec()
        && a.effort.rank_spec() == b.effort.rank_spec() {
        if lex_lt(c.id@, a.id@) {
            if lex_lt(a.id@, b.id@) {
                lemma_lex_lt_trans(c.id@, a.id@, b.id@);
            } else {
                lemma_lex_lt_connected(a.id@, b.id@);
            }
        }
    }
}

/// Recommendations that the ranking orders both ways agree on every key,
/// including the identifier.
pub proof fn lemma_rec_le_antisym(a: Recommendation, b: Recommendation)
    requires
        rec_le(a, b),
        rec_le(b, a),
    ensures
        a.impact == b.impact,
        a.effort == b.effort,
        a.id@ == b.id@,
{
    lemma_lex_lt_connected(a.id@, b.id@);
}

/// The ranking preorder is reflexive.
pub proof fn lemma_rec_le_refl(a: Recommendation)
    ensures
        rec_le(a, a),
{
    lemma_lex_lt_irrefl(a.id@);
}

/// Decides the ranking preorder.
pub fn rec_le_exec(a: &Recommendation, b: &Recommendation) -> (r: bool)
    ensures
        r == rec_le(*a, *b),
{
    let pa = a.impact.priority();
    let pb = b.impact.priority();
    if pa != pb {
        return pa > pb;
    }
    let ra = a.effort.rank();
    let rb = b.effort.rank();
    if ra != rb {
        return ra < rb;
    }
    !str_lt(b.id.as_str(), a.id.as_str())
}

/// Sorts recommendations into ranking order.  Equal-key entries keep their
/// relative order because each round extracts the earliest minimal entry.
pub fn sort_recs(input: Vec<Recommendation>) -> (r: Vec<Recommendation>)
    ensures
        r@.to_multiset() == input@.to_multiset(),
        recs_sorted(r@),
{
    let ghost orig = input@.to_multiset();
    let mut v = input;
    let mut out: Vec<Recommendation> = Vec::new();
    proof {
        assert(out@.to_multiset().add(v@.to_multiset()) =~= orig);
    }
    while v.len() > 0
        invariant
            out@.to_multiset().add(v@.to_multiset()) =~= orig,
            recs_sorted(out@),
            forall|p: int, q: int|
                0 <= p < out@.len() && 0 <= q < v@.len() ==> rec_le(
                    #[trigger] out@[p],
                    #[trigger] v@[q],
                ),
        decreases v@.len(),
    {
        let n = v.len();
        let mut m: usize = 0;
        let mut k: usize = 1;
        proof {
            lemma_rec_le_refl(v@[0]);
        }
        while k < n
            invariant
                m < k <= n,
                n == v@.len(),
                forall|q: int| 0 <= q < k ==> rec_le(v@[m as int], #[trigger] v@[q]),
            decreases n - k,
        {
            if !rec_le_exec(&v[m], &v[k]) {
                proof {
                    lemma_rec_le_total(v@[m as int], v@[k as int]);
                    assert forall|q: int| 0 <= q < k implies rec_le(
                        v@[k as int],
                        #[trigger] v@[q],
                    ) by {
                        lemma_rec_le_trans(v@[k as int], v@[m as int], v@[q]);
                    }
                }
                m = k;
                proof {
                    lemma_rec_le_refl(v@[m as int]);
                }
            }
            k = k + 1;
        }
        let ghost v_before = v@;
        let ghost out_before = out@;
        let picked = v.remove(m);
        out.push(picked);
        proof {
            assert(picked == v_before[m as int]);
            assert(v@ == v_before.remove(m as int));
            assert(v@.to_multiset() =~= v_before.to_multiset().remove(picked));
            assert(out@ == out_before.push(picked));
            assert(out@.to_multiset() =~= out_before.to_multiset().insert(picked));
            assert(v_before.to_multiset().count(picked) >= 1) by {
                assert(v_before.contains(picked));
            }
            assert(out@.to_multiset().add(v@.to_multiset()) =~= orig);
            assert forall|p: int, q: int|
                0 <= p < out@.len() && 0 <= q < v@.len() implies rec_le(
                #[trigger] out@[p],
                #[trigger] v@[q],
            ) by {
                assert(v@[q] == if q < m {
                    v_before[q]
                } else {
                    v_before[q + 1]
                });
                if p < out_before.len() {
                    assert(out@[p] == out_before[p]);
                } else {
                    assert(out@[p] == picked);
                }
            }
            assert(recs_sorted(out@)) by {
                assert(forall|p: int, q: int|
                    0 <= p < q < out@.len() && q < out_before.len() ==> rec_le(
                        #[trigger] out@[p],
                        #[trigger] out@[q],
                    ));
                assert(forall|p: int|
                    0 <= p < out_before.len() ==> rec_le(
                        #[trigger] out@[p],
                        out@[out@.len() - 1],
                    ));
            }
        }
    }
    proof {
        assert(v@.to_multiset() =~= Multiset::empty());
        assert(out@.to_multiset() =~= orig);
    }
    out
}

/// The analysis result handed to renderers: the overall score in
/// thousandths, the category scores, the findings, and the ranked
/// recommendations.
pub struct HarnessReport {
    pub overall_score: i64,
    pub category_scores: ScoreCard,
    pub findings: Vec<Finding>,
    pub recommendations: Vec<Recommendation>,
}

impl HarnessReport {
    /// Sorts the recommendations into ranking order in place.
    pub fn sort_recommendations(&mut self)
        ensures
            final(self).recommendations@.to_multiset() == old(
                self,
            ).recommendations@.to_multiset(),
            recs_sorted(final(self).recommendations@),
            final(self).overall_score == old(self).overall_score,
            final(self).category_scores == old(self).category_scores,
            final(self).findings == old(self).findings,
    {
        let mut tmp: Vec<Recommendation> = Vec::new();
        core::mem::swap(&mut tmp, &mut self.recommendations);
        let sorted = sort_recs(tmp);
        self.recommendations = sorted;
    }
}

/// In a ranked list, impact priority never increases from one entry to a
/// later one: a high-impact recommendation always precedes a medium- or
/// low-impact one, whatever their confidence or original order.
pub proof fn lemma_ranking_impact_monotone(s: Seq<Recommendation>, i: int, j: int)
    requires
        recs_sorted(s),
        0 <= i < j < s.len(),
    ensures
        s[i].impact.priority_spec() >= s[j].impact.priority_spec(),
{
}

/// Ranking is deterministic, so sorting is idempotent: two ranked lists
/// with the same entries and unique identifiers are the same list.  In
/// particular, ranking an already-ranked list leaves it unchanged.
pub proof fn lemma_ranking_deterministic(a: Seq<Recommendation>, b: Seq<Recommendation>)
    requires
        recs_sorted(a),
        recs_sorted(b),
        a.to_multiset() == b.to_multiset(),
        unique_ids(a),
    ensures
        a == b,
    decreases a.len(),
{
    assert(a.len() == a.to_multiset().len());
    assert(b.len() == b.to_multiset().len());
    if a.len() == 0 {
        assert(a =~= b);
    } else {
        assert(a.to_multiset().count(a[0]) >= 1) by {
            assert(a.contains(a[0]));
        }
        assert(b.contains(a[0]));
        let k = choose|k: int| 0 <= k < b.len() && b[k] == a[0];
        assert(b.to_multiset().count(b[0]) >= 1) by {
            assert(b.contains(b[0]));
        }
        assert(a.contains(b[0]));
        let m = choose|m: int| 0 <= m < a.len() && a[m] == b[0];
        assert(rec_le(b[0], a[0])) by {
            if k > 0 {
                assert(rec_le(b[0], b[k]));
            } else {
                lemma_rec_le_total(a[0], b[0]);
            }
        }
        assert(rec_le(a[0], b[0])) by {
            if m > 0 {
                assert(rec_le(a[0], a[m]));
            } else {
                lemma_rec_le_total(a[0], b[0]);
            }
        }
        lemma_rec_le_antisym(a[0], b[0]);
        assert(a[m].id@ == a[0].id@);
        assert(m == 0);
        assert(a[0] == b[0]);
        let ta = a.remove(0);
        let tb = b.remove(0);
        assert(ta.to_multiset() =~= a.to_multiset().remove(a[0]));
        assert(tb.to_multiset() =~= b.to_multiset().remove(b[0]));
        assert(ta.to_multiset() == tb.to_multiset());
        assert(recs_sorted(ta)) by {
            assert(forall|p: int| 0 <= p < ta.len() ==> #[trigger] ta[p] == a[p + 1]);
        }
        assert(recs_sorted(tb)) by {
            assert(forall|p: int| 0 <= p < tb.len() ==> #[trigger] tb[p] == b[p + 1]);
        }
        assert(unique_ids(ta)) by {
            assert(forall|p: int| 0 <= p < ta.len() ==> #[trigger] ta[p] == a[p + 1]);
        }
        lemma_ranking_deterministic(ta, tb);
        assert(a.len() == b.len());
        assert forall|p: int| 0 <= p < a.len() implies a[p] == b[p] by {
            if p > 0 {
                assert(ta[p - 1] == a[p]);
                assert(tb[p - 1] == b[p]);
            }
        }
        assert(a =~= b);
    }
}

} // verus!
