use hexsight::augment_reroll_scorer::{
    AugmentDecisionAction, AugmentRerollContext, AugmentRerollScorer, AugmentStage, AugmentThresholds,
    RankedAugmentOption,
};

fn option(id: &str, fallback_score: i32, lineup_coverage: i32, lock_risk: i32) -> RankedAugmentOption {
    RankedAugmentOption {
        augment_id: id.into(),
        augment_name: format!("海克斯{}", id),
        total_score: 30,
        current_value: 30,
        lineup_coverage,
        lock_risk,
        fallback_score,
        tags: vec![],
        supported_lineup_ids: vec![],
        reason: vec![],
    }
}

fn context(options: Vec<RankedAugmentOption>, has_reroll: bool, stage: AugmentStage, hp: i32) -> AugmentRerollContext {
    AugmentRerollContext {
        ranked_options: options,
        has_reroll,
        stage,
        current_hp: hp,
        current_gold: 20,
        locked_lineup_id: None,
    }
}

#[test]
fn fallback_tiebreak_prefers_higher_lineup_coverage() {
    let decision = AugmentRerollScorer::decide(&context(
        vec![option("low_coverage", 40, 10, 20), option("high_coverage", 40, 80, 20)],
        false,
        AugmentStage::Second,
        80,
    ));
    assert_eq!(decision.action, AugmentDecisionAction::TakeFallback);
    assert_eq!(decision.recommended_augment_id, Some("high_coverage".into()));
}

#[test]
fn fallback_tiebreak_prefers_lower_lock_risk_after_equal_coverage() {
    let decision = AugmentRerollScorer::decide(&context(
        vec![option("high_risk", 40, 60, 80), option("low_risk", 40, 60, 15)],
        false,
        AugmentStage::Second,
        80,
    ));
    assert_eq!(decision.action, AugmentDecisionAction::TakeFallback);
    assert_eq!(decision.recommended_augment_id, Some("low_risk".into()));
    assert_eq!(decision.lock_risk, 15);
}

#[test]
fn empty_options_take_fallback_without_recommendation() {
    let decision = AugmentRerollScorer::decide(&context(vec![], true, AugmentStage::First, 80));
    assert_eq!(decision.action, AugmentDecisionAction::TakeFallback);
    assert_eq!(decision.recommended_augment_id, None);
    assert_eq!(decision.reason, vec!["未识别到候选海克斯".to_string()]);
}

#[test]
fn best_option_above_threshold_is_taken() {
    let mut strong = option("strong", 10, 50, 30);
    strong.total_score = 70;
    let decision = AugmentRerollScorer::decide(&context(vec![option("weak", 40, 10, 5), strong], true, AugmentStage::First, 80));
    assert_eq!(decision.action, AugmentDecisionAction::Take);
    assert_eq!(decision.recommended_augment_id, Some("strong".into()));
    assert_eq!(decision.fallback_augment_id, Some("weak".into()));
    assert_eq!(decision.expected_reroll_gain, 0);
    assert_eq!(decision.ranked_options[0].augment_id, "strong");
    assert_eq!(decision.reason, vec!["海克斯strong 达到当前阶段最低可接受分 65".to_string()]);
}

#[test]
fn low_options_with_reroll_ask_for_reroll() {
    let decision = AugmentRerollScorer::decide(&context(vec![option("a", 40, 10, 5)], true, AugmentStage::First, 80));
    assert_eq!(decision.action, AugmentDecisionAction::Reroll);
    assert_eq!(decision.recommended_augment_id, None);
    assert_eq!(decision.expected_reroll_gain, 38);
    assert!(decision.reason[0].contains("低于最低可接受分 65"));
}

#[test]
fn low_health_lowers_the_take_threshold() {
    let mut opt = option("a", 40, 10, 5);
    opt.total_score = 57;
    let healthy = AugmentRerollScorer::decide(&context(vec![opt.clone()], false, AugmentStage::First, 80));
    assert_eq!(healthy.action, AugmentDecisionAction::TakeFallback);
    let low = AugmentRerollScorer::decide(&context(vec![opt], false, AugmentStage::First, 40));
    assert_eq!(low.action, AugmentDecisionAction::Take);
}

#[test]
fn custom_thresholds_are_used() {
    let thresholds = AugmentThresholds {
        version: "t".into(),
        first_min_take_score: 20,
        later_min_take_score: 20,
        fallback_min_score: 10,
        reroll_expected_gain: 12,
        low_hp_take_bonus: 8,
        low_hp_threshold: 45,
    };
    let decision = AugmentRerollScorer::decide_with_thresholds(
        &context(vec![option("a", 40, 10, 5)], true, AugmentStage::Third, 80),
        &thresholds,
    );
    assert_eq!(decision.action, AugmentDecisionAction::Take);
}
