//! Category scoring.  A score is a proportion in [0, 1] carried in
//! thousandths, so 1000 stands for 1.0; raw sums may leave that range and
//! are clamped before use.

use vstd::prelude::*;

verus! {

/// A proportion in thousandths: 1000 stands for 1.0.
pub type Score = i64;

/// The denominator of the score representation.
pub const SCORE_SCALE: i64 = 1000;

/// Clamps a raw value into [0, 1000].
pub open spec fn clamp_spec(v: int) -> int {
    if v < 0 {
        0
    } else if v > SCORE_SCALE as int {
        SCORE_SCALE as int
    } else {
        v
    }
}

/// Clamps a raw score into [0, 1000].
pub fn clamp_score(v: i64) -> (r: i64)
    ensures
        r == clamp_spec(v as int),
{
    if v < 0 {
        0
    } else if v > SCORE_SCALE {
        SCORE_SCALE
    } else {
        v
    }
}

/// Accumulates one category's base value, bonuses and penalties before the
/// final clamp.
pub struct CategoryScoreBuilder {
    pub base: Score,
    pub bonuses: Score,
    pub penalties: Score,
}

/// The value a builder yields under a penalty cap: penalties count only up
/// to the cap, and the result is clamped into [0, 1000].
pub open spec fn built_score(base: int, bonuses: int, penalties: int, cap: int) -> int {
    let capped = if penalties < cap {
        penalties
    } else {
        cap
    };
    clamp_spec(base + bonuses - capped)
}

impl CategoryScoreBuilder {
    /// A builder with the category's base value and no adjustments yet.
    pub fn new(base: Score) -> (r: Self)
        ensures
            r.base == base,
            r.bonuses == 0,
            r.penalties == 0,
    {
        CategoryScoreBuilder { base, bonuses: 0, penalties: 0 }
    }

    /// Accumulates a bonus.
    pub fn add_bonus(&mut self, value: Score)
        requires
            old(self).bonuses + value <= i64::MAX,
            old(self).bonuses + value >= i64::MIN,
        ensures
            final(self).base == old(self).base,
            final(self).bonuses == old(self).bonuses + value,
            final(self).penalties == old(self).penalties,
    {
        self.bonuses = self.bonuses + value;
    }

    /// Accumulates a penalty.
    pub fn add_penalty(&mut self, value: Score)
        requires
            old(self).penalties + value <= i64::MAX,
            old(self).penalties + value >= i64::MIN,
        ensures
            final(self).base == old(self).base,
            final(self).bonuses == old(self).bonuses,
            final(self).penalties == old(self).penalties + value,
    {
        self.penalties = self.penalties + value;
    }

    /// Applies the penalty cap and clamps the sum into [0, 1000].
    pub fn build(&self, max_penalty_per_bucket: Score) -> (r: Score)
        ensures
            r == built_score(
                self.base as int,
                self.bonuses as int,
                self.penalties as int,
                max_penalty_per_bucket as int,
            ),
            0 <= r <= SCORE_SCALE,
    {
        let capped: i64 = if self.penalties < max_penalty_per_bucket {
            self.penalties
        } else {
            max_penalty_per_bucket
        };
        let raw: i128 = self.base as i128 + self.bonuses as i128 - capped as i128;
        if raw < 0 {
            0
        } else if raw > SCORE_SCALE as i128 {
            SCORE_SCALE
        } else {
            raw as i64
        }
    }
}

/// The five category scores and the derived overall score, all in
/// thousandths.
pub struct ScoreCard {
    pub context: Score,
    pub tools: Score,
    pub continuity: Score,
    pub verification: Score,
    pub repository_quality: Score,
    pub overall: Score,
}

/// The weighted overall score: every category is clamped, multiplied by its
/// weight in thousandths, and the weighted sum is scaled back down.
pub open spec fn weighted_overall_spec(card: ScoreCard, weights: [Score; 5]) -> int {
    (clamp_spec(card.context as int) * weights[0] + clamp_spec(card.tools as int) * weights[1]
        + clamp_spec(card.continuity as int) * weights[2] + clamp_spec(card.verification as int)
        * weights[3] + clamp_spec(card.repository_quality as int) * weights[4]) / (
    SCORE_SCALE as int)
}

impl ScoreCard {
    /// A card with the given category scores and a zero overall.
    pub fn new(
        context: Score,
        tools: Score,
        continuity: Score,
        verification: Score,
        repository_quality: Score,
    ) -> (r: Self)
        ensures
            r.context == context,
            r.tools == tools,
            r.continuity == continuity,
            r.verification == verification,
            r.repository_quality == repository_quality,
            r.overall == 0,
    {
        ScoreCard { context, tools, continuity, verification, repository_quality, overall: 0 }
    }

    /// Every field clamped into [0, 1000].
    pub fn clamped(&self) -> (r: Self)
        ensures
            r.context == clamp_spec(self.context as int),
            r.tools == clamp_spec(self.tools as int),
            r.continuity == clamp_spec(self.continuity as int),
            r.verification == clamp_spec(self.verification as int),
            r.repository_quality == clamp_spec(self.repository_quality as int),
            r.overall == clamp_spec(self.overall as int),
    {
        ScoreCard {
            context: clamp_score(self.context),
            tools: clamp_score(self.tools),
            continuity: clamp_score(self.continuity),
            verification: clamp_score(self.verification),
            repository_quality: clamp_score(self.repository_quality),
            overall: clamp_score(self.overall),
        }
    }

    /// The weighted overall score.  Weights are proportions in thousandths,
    /// validated upstream to lie in [0, 1].
    pub fn weighted_overall(&self, weights: &[Score; 5]) -> (r: Score)
        requires
            0 <= weights[0] <= SCORE_SCALE,
            0 <= weights[1] <= SCORE_SCALE,
            0 <= weights[2] <= SCORE_SCALE,
            0 <= weights[3] <= SCORE_SCALE,
            0 <= weights[4] <= SCORE_SCALE,
        ensures
            r == weighted_overall_spec(*self, *weights),
    {
        let c = self.clamped();
        proof {
            lemma_product_bound(c.context as int, weights[0] as int);
            lemma_product_bound(c.tools as int, weights[1] as int);
            lemma_product_bound(c.continuity as int, weights[2] as int);
            lemma_product_bound(c.verification as int, weights[3] as int);
            lemma_product_bound(c.repository_quality as int, weights[4] as int);
        }
        let sum: i64 = c.context * weights[0] + c.tools * weights[1] + c.continuity * weights[2]
            + c.verification * weights[3] + c.repository_quality * weights[4];
        sum / SCORE_SCALE
    }

    /// Clamps every category and fills in the weighted overall score.
    pub fn finalize(self, weights: &[Score; 5]) -> (r: Self)
        requires
            0 <= weights[0] <= SCORE_SCALE,
            0 <= weights[1] <= SCORE_SCALE,
            0 <= weights[2] <= SCORE_SCALE,
            0 <= weights[3] <= SCORE_SCALE,
            0 <= weights[4] <= SCORE_SCALE,
        ensures
            r.context == clamp_spec(self.context as int),
            r.tools == clamp_spec(self.tools as int),
            r.continuity == clamp_spec(self.continuity as int),
            r.verification == clamp_spec(self.verification as int),
            r.repository_quality == clamp_spec(self.repository_quality as int),
            r.overall == weighted_overall_spec(self, *weights),
    {
        let mut c = self.clamped();
        proof {
            assert(clamp_spec(c.context as int) == c.context as int);
            assert(clamp_spec(c.tools as int) == c.tools as int);
            assert(clamp_spec(c.continuity as int) == c.continuity as int);
            assert(clamp_spec(c.verification as int) == c.verification as int);
            assert(clamp_spec(c.repository_quality as int) == c.repository_quality as int);
        }
        let overall = c.weighted_overall(weights);
        c.overall = overall;
        c
    }
}

/// Clamping always lands in [0, 1]: every category score, however far the
/// raw bonus and penalty sums strayed, is a valid proportion.
pub proof fn lemma_clamp_in_range(v: int)
    ensures
        0 <= clamp_spec(v) <= SCORE_SCALE,
{
}

/// The product of a clamped score and a weight in [0, 1000] stays small.
proof fn lemma_product_bound(c: int, w: int)
    requires
        0 <= c <= 1000,
        0 <= w <= 1000,
    ensures
        0 <= c * w <= 1000000,
{
    assert(0 <= c * w <= 1000000) by (nonlinear_arith)
        requires
            0 <= c <= 1000,
            0 <= w <= 1000,
    ;
}

/// Clamped categories never leave [0, 1], so with weights that are valid
/// proportions summing to at most 1 the overall score stays in [0, 1] as
/// well, whatever raw category sums were fed in.
pub proof fn lemma_overall_in_range(card: ScoreCard, weights: [Score; 5])
    requires
        weights[0] >= 0,
        weights[1] >= 0,
        weights[2] >= 0,
        weights[3] >= 0,
        weights[4] >= 0,
        weights[0] + weights[1] + weights[2] + weights[3] + weights[4] <= SCORE_SCALE,
    ensures
        0 <= weighted_overall_spec(card, weights) <= SCORE_SCALE,
{
    let c0 = clamp_spec(card.context as int);
    let c1 = clamp_spec(card.tools as int);
    let c2 = clamp_spec(card.continuity as int);
    let c3 = clamp_spec(card.verification as int);
    let c4 = clamp_spec(card.repository_quality as int);
    let w0 = weights[0] as int;
    let w1 = weights[1] as int;
    let w2 = weights[2] as int;
    let w3 = weights[3] as int;
    let w4 = weights[4] as int;
    assert(c0 * w0 + c1 * w1 + c2 * w2 + c3 * w3 + c4 * w4 <= 1000 * (w0 + w1 + w2 + w3 + w4)
        && c0 * w0 >= 0 && c1 * w1 >= 0 && c2 * w2 >= 0 && c3 * w3 >= 0 && c4 * w4 >= 0) by (nonlinear_arith)
        requires
            0 <= c0 <= 1000,
            0 <= c1 <= 1000,
            0 <= c2 <= 1000,
            0 <= c3 <= 1000,
            0 <= c4 <= 1000,
            w0 >= 0,
            w1 >= 0,
            w2 >= 0,
            w3 >= 0,
            w4 >= 0,
    ;
    let total = c0 * w0 + c1 * w1 + c2 * w2 + c3 * w3 + c4 * w4;
    assert(total <= 1000 * 1000);
    assert(total / 1000 <= 1000);
    assert(total / 1000 >= 0);
}

/// With weights summing to exactly 1, a card whose categories are all 1.0
/// scores an overall of exactly 1.0, and one whose categories are all 0.0
/// scores exactly 0.0.
pub proof fn lemma_overall_extremes(card: ScoreCard, weights: [Score; 5])
    requires
        weights[0] >= 0,
        weights[1] >= 0,
        weights[2] >= 0,
        weights[3] >= 0,
        weights[4] >= 0,
        weights[0] + weights[1] + weights[2] + weights[3] + weights[4] == SCORE_SCALE,
    ensures
        (card.context == SCORE_SCALE && card.tools == SCORE_SCALE && card.continuity == SCORE_SCALE
            && card.verification == SCORE_SCALE && card.repository_quality == SCORE_SCALE)
            ==> weighted_overall_spec(card, weights) == SCORE_SCALE,
        (card.context == 0 && card.tools == 0 && card.continuity == 0 && card.verification == 0
            && card.repository_quality == 0) ==> weighted_overall_spec(card, weights) == 0,
{
    let w0 = weights[0] as int;
    let w1 = weights[1] as int;
    let w2 = weights[2] as int;
    let w3 = weights[3] as int;
    let w4 = weights[4] as int;
    if card.context == SCORE_SCALE && card.tools == SCORE_SCALE && card.continuity == SCORE_SCALE
        && card.verification == SCORE_SCALE && card.repository_quality == SCORE_SCALE {
        assert(1000 * w0 + 1000 * w1 + 1000 * w2 + 1000 * w3 + 1000 * w4 == 1000 * 1000) by (nonlinear_arith)
            requires
                w0 + w1 + w2 + w3 + w4 == 1000,
        ;
        assert(weighted_overall_spec(card, weights) == 1000 * 1000 / 1000);
    }
    if card.context == 0 && card.tools == 0 && card.continuity == 0 && card.verification == 0
        && card.repository_quality == 0 {
        assert(clamp_spec(0) == 0);
        assert(0 * w0 == 0 && 0 * w1 == 0 && 0 * w2 == 0 && 0 * w3 == 0 && 0 * w4 == 0);
        assert(weighted_overall_spec(card, weights) == 0);
    }
}

} // verus!
