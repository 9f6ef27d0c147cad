use harness::{
    CategoryScoreBuilder, Effort, HarnessReport, Impact, Recommendation, Risk, ScoreCard,
};

#[test]
fn clamp_keeps_valid_scores() {
    let card = ScoreCard::new(500, 800, 300, 900, 700);
    let clamped = card.clamped();
    assert_eq!(clamped.context, 500);
}

#[test]
fn clamp_caps_negative_and_overflow() {
    let card = ScoreCard {
        context: -200,
        tools: 1500,
        continuity: 500,
        verification: 500,
        repository_quality: 500,
        overall: 1200,
    };
    let clamped = card.clamped();
    assert_eq!(clamped.context, 0);
    assert_eq!(clamped.tools, 1000);
    assert_eq!(clamped.overall, 1000);
}

#[test]
fn bucket_penalty_limit_enforced() {
    let mut builder = CategoryScoreBuilder::new(1000);
    builder.add_penalty(600);
    let score = builder.build(400);
    assert_eq!(score, 600);
}

#[test]
fn weighted_overall_sums_correctly() {
    let weights = [300, 250, 200, 150, 100];
    let card = ScoreCard::new(1000, 1000, 1000, 1000, 1000);
    let overall = card.weighted_overall(&weights);
    assert_eq!(overall, 1000);
}

#[test]
fn weighted_overall_with_zeros() {
    let weights = [300, 250, 200, 150, 100];
    let card = ScoreCard::new(0, 0, 0, 0, 0);
    let overall = card.weighted_overall(&weights);
    assert_eq!(overall, 0);
}

#[test]
fn weighted_overall_mixed_exact_value() {
    let weights = [300, 250, 200, 150, 100];
    let card = ScoreCard::new(500, 1000, 0, 200, 400);
    // 0.5*0.3 + 1.0*0.25 + 0*0.2 + 0.2*0.15 + 0.4*0.1 = 0.47
    assert_eq!(card.weighted_overall(&weights), 470);
}

#[test]
fn overall_stays_in_range_for_raw_sums() {
    let weights = [300, 250, 200, 150, 100];
    let card = ScoreCard::new(5000, -3000, 99999, -1, 1001);
    let overall = card.weighted_overall(&weights);
    assert!((0..=1000).contains(&overall));
}

#[test]
fn recommendation_confidence_is_clamped() {
    let recommendation = Recommendation::new(
        "id-1".to_owned(),
        "Title".to_owned(),
        "Summary".to_owned(),
        Impact::Medium,
        Effort::S,
        Risk::Medium,
        1500,
    );
    assert_eq!(recommendation.confidence, 1000);
}

fn rec(id: &str, title: &str, impact: Impact, effort: Effort, risk: Risk, confidence: i64) -> Recommendation {
    Recommendation::new(
        id.to_owned(),
        title.to_owned(),
        "x".to_owned(),
        impact,
        effort,
        risk,
        confidence,
    )
}

#[test]
fn recommendation_sorting_uses_impact_effort_and_id() {
    let mut report = HarnessReport {
        overall_score: 0,
        category_scores: ScoreCard::new(0, 0, 0, 0, 0),
        findings: vec![],
        recommendations: vec![
            rec("b", "Low effort medium impact", Impact::Medium, Effort::Xs, Risk::Safe, 800),
            rec("a", "High impact", Impact::High, Effort::M, Risk::High, 900),
            rec("c", "Medium impact higher effort", Impact::Medium, Effort::L, Risk::Medium, 700),
        ],
    };

    report.sort_recommendations();

    let ids: Vec<String> = report
        .recommendations
        .iter()
        .map(|recommendation| recommendation.id.clone())
        .collect();
    assert_eq!(ids, vec!["a".to_owned(), "b".to_owned(), "c".to_owned()]);
}

#[test]
fn sorting_already_sorted_list_keeps_order() {
    let mut report = HarnessReport {
        overall_score: 0,
        category_scores: ScoreCard::new(0, 0, 0, 0, 0),
        findings: vec![],
        recommendations: vec![
            rec("high-xs", "t", Impact::High, Effort::Xs, Risk::Safe, 100),
            rec("medium-xs", "t", Impact::Medium, Effort::Xs, Risk::Safe, 900),
            rec("medium-l", "t", Impact::Medium, Effort::L, Risk::Safe, 500),
        ],
    };
    report.sort_recommendations();
    let first: Vec<String> = report.recommendations.iter().map(|r| r.id.clone()).collect();
    report.sort_recommendations();
    let second: Vec<String> = report.recommendations.iter().map(|r| r.id.clone()).collect();
    assert_eq!(first, second);
    assert_eq!(first, vec!["high-xs".to_owned(), "medium-xs".to_owned(), "medium-l".to_owned()]);
}

#[test]
fn high_impact_precedes_medium_regardless_of_confidence() {
    let mut report = HarnessReport {
        overall_score: 0,
        category_scores: ScoreCard::new(0, 0, 0, 0, 0),
        findings: vec![],
        recommendations: vec![
            rec("m", "medium", Impact::Medium, Effort::Xs, Risk::Safe, 1000),
            rec("h", "high", Impact::High, Effort::Xs, Risk::Safe, 0),
        ],
    };
    report.sort_recommendations();
    assert_eq!(report.recommendations[0].id, "h");
    assert_eq!(report.recommendations[1].id, "m");
}

#[test]
fn sorting_an_empty_list_is_a_no_op() {
    let mut report = HarnessReport {
        overall_score: 0,
        category_scores: ScoreCard::new(0, 0, 0, 0, 0),
        findings: vec![],
        recommendations: vec![],
    };
    report.sort_recommendations();
    assert!(report.recommendations.is_empty());
}
