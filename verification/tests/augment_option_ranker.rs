use hexsight::augment_effect_interpreter::AugmentEffectInterpreter;
use hexsight::augment_option_ranker::AugmentOptionRanker;
use hexsight::augment_reroll_scorer::{
    AugmentDecisionAction, AugmentRerollContext, AugmentRerollScorer, AugmentSituationContext, AugmentStage,
    AugmentTypeWeights,
};
use hexsight::json::JsonValue;
use hexsight::rule_types::{LineupProfile, PlaystyleTag};

fn profile(id: &str, recommended: &[&str], replacement: &[&str]) -> LineupProfile {
    LineupProfile {
        lineup_id: id.into(),
        name: format!("阵容{}", id),
        base_tier: 80,
        playstyle_tags: vec![PlaystyleTag::Standard],
        final_hero_ids: vec![],
        carry_hero_ids: vec![],
        tank_hero_ids: vec![],
        core_equipment_ids: vec![],
        tank_equipment_ids: vec![],
        equipment_order_ids: vec![],
        recommended_hex_ids: recommended.iter().map(|id| id.to_string()).collect(),
        replacement_hex_ids: replacement.iter().map(|id| id.to_string()).collect(),
        early_hero_ids: vec![],
        mid_hero_ids: vec![],
        trait_targets: vec![],
        strategy_texts: vec![],
        mode_specific: JsonValue::Null,
        carry_costs: vec![4],
        category: None,
    }
}

fn cand(id: &str, name: &str, desc: &str, level: i32) -> (String, String, String, i32) {
    (id.into(), name.into(), desc.into(), level)
}

fn situation(hp: i32, gold: i32) -> AugmentSituationContext {
    AugmentSituationContext {
        current_hp: hp,
        current_gold: gold,
        item_gap_level: 0,
        core_hero_count: 0,
        locked_lineup_id: None,
        existing_effect_tags: vec![],
        required_effect_tags: vec![],
        preferred_damage_profile: None,
    }
}

#[test]
fn recommends_reroll_when_three_options_are_below_stage_threshold() {
    let options = AugmentOptionRanker::rank_options(
        &[
            cand("hero_lock", "英雄专属", "专属英雄强化，绑定特定英雄", 2),
            cand("late_gamble", "后期赌博", "随机获得高风险后期奖励", 2),
            cand("off_trait", "无关纹章", "获得一个未成型羁绊纹章", 2),
        ],
        &[profile("A", &["ideal"], &[])],
        AugmentStage::First,
        false,
        false,
    );

    let decision = AugmentRerollScorer::decide(&AugmentRerollContext {
        ranked_options: options,
        has_reroll: true,
        stage: AugmentStage::First,
        current_hp: 80,
        current_gold: 20,
        locked_lineup_id: None,
    });

    assert_eq!(decision.action, AugmentDecisionAction::Reroll);
    assert_eq!(decision.recommended_augment_id, None);
    assert!(decision.reason.iter().any(|line| line.contains("低于最低可接受分")));
}

#[test]
fn takes_fallback_after_reroll_when_all_options_are_still_low() {
    let profiles = vec![
        profile("A", &[], &["flex_item"]),
        profile("B", &[], &["flex_item"]),
        profile("C", &[], &["small_combat"]),
    ];
    let options = AugmentOptionRanker::rank_options(
        &[
            cand("hero_lock", "英雄专属", "专属英雄强化，绑定特定英雄", 2),
            cand("flex_item", "弹性站位", "获得临时调整机会", 2),
            cand("small_combat", "小型战力", "获得少量攻击力和法术强度", 2),
        ],
        &profiles,
        AugmentStage::Second,
        false,
        true,
    );

    let decision = AugmentRerollScorer::decide(&AugmentRerollContext {
        ranked_options: options,
        has_reroll: false,
        stage: AugmentStage::Second,
        current_hp: 80,
        current_gold: 10,
        locked_lineup_id: None,
    });

    assert_eq!(decision.action, AugmentDecisionAction::TakeFallback);
    assert_eq!(decision.recommended_augment_id, Some("flex_item".into()));
    assert!(decision.lock_risk <= 35);
    assert!(decision.reason.iter().any(|line| line.contains("兜底")));
}

#[test]
fn situation_context_prefers_economy_when_gold_is_high() {
    let profiles = vec![profile("A", &[], &[])];
    let context = situation(80, 70);
    let options = AugmentOptionRanker::rank_options_with_context(
        &[
            cand("item_help", "装备补给", "获得散件装备和重铸器", 2),
            cand("rich", "富有收益", "获得金币、利息和后期高费奖励", 2),
        ],
        &profiles,
        AugmentStage::First,
        &context,
    );

    assert_eq!(options[0].augment_id, "rich");
    assert!(options[0].reason.iter().any(|line| line.contains("经济很好")));
}

#[test]
fn situation_context_prefers_locked_lineup_recommended_augment() {
    let profiles = vec![profile("locked", &["trait_a"], &[]), profile("flex", &["item_help"], &[])];
    let mut context = situation(76, 20);
    context.core_hero_count = 2;
    context.locked_lineup_id = Some("locked".into());
    let options = AugmentOptionRanker::rank_options_with_context(
        &[
            cand("trait_a", "核心羁绊", "获得一个羁绊纹章并强化当前体系", 2),
            cand("item_help", "装备补给", "获得散件装备和重铸器", 2),
        ],
        &profiles,
        AugmentStage::Second,
        &context,
    );

    assert_eq!(options[0].augment_id, "trait_a");
    assert!(options[0].reason.iter().any(|line| line.contains("已锁阵容")));
}

#[test]
fn situation_context_penalizes_duplicate_effect_tags() {
    let profiles = vec![profile("A", &[], &[])];
    let mut context = situation(80, 20);
    context.existing_effect_tags = vec!["anti_heal".into()];
    let options = AugmentOptionRanker::rank_options_with_context(
        &[
            cand("more_wound", "重伤扩散", "你的队伍获得重伤和减疗效果", 2),
            cand("combat", "通用战力", "获得攻击力和法术强度", 2),
        ],
        &profiles,
        AugmentStage::Second,
        &context,
    );

    let duplicate = options.iter().find(|option| option.augment_id == "more_wound").expect("应保留重复效果候选");

    assert_eq!(options[0].augment_id, "combat");
    assert!(duplicate.current_value < options[0].current_value);
    assert!(duplicate.reason.iter().any(|line| line.contains("重复效果收益下降")));
}

#[test]
fn required_effect_tags_reduce_duplicate_penalty() {
    let profiles = vec![profile("A", &[], &[])];
    let mut context = situation(80, 20);
    context.existing_effect_tags = vec!["anti_heal".into()];
    context.required_effect_tags = vec!["anti_heal".into()];
    let options = AugmentOptionRanker::rank_options_with_context(
        &[cand("more_wound", "重伤扩散", "你的队伍获得重伤和减疗效果", 2)],
        &profiles,
        AugmentStage::Second,
        &context,
    );

    assert!(options[0].reason.iter().any(|line| line.contains("当前局势需要")));
    assert!(!options[0].reason.iter().any(|line| line.contains("重复效果收益下降")));
}

#[test]
fn situation_context_penalizes_damage_profile_mismatch() {
    let profiles = vec![profile("ap_lineup", &["ap_boost"], &[])];
    let mut context = situation(78, 20);
    context.core_hero_count = 1;
    context.locked_lineup_id = Some("ap_lineup".into());
    context.preferred_damage_profile = Some("ap".into());
    let options = AugmentOptionRanker::rank_options_with_context(
        &[
            cand("ad_boost", "物理火力", "获得攻击力、攻速和物理伤害", 2),
            cand("ap_boost", "法术涌动", "获得法术强度和魔法伤害", 2),
        ],
        &profiles,
        AugmentStage::Second,
        &context,
    );

    let ad_option = options.iter().find(|option| option.augment_id == "ad_boost").expect("应保留 AD 候选");

    assert_eq!(options[0].augment_id, "ap_boost");
    assert!(ad_option.reason.iter().any(|line| line.contains("当前局势不匹配")));
}

#[test]
fn ranked_option_scores_follow_the_weighted_formula() {
    // One lineup of two recommends the augment: coverage rounds to 50.
    let profiles = vec![profile("A", &["combat"], &[]), profile("B", &[], &[])];
    let weights = AugmentTypeWeights::default();
    let options = AugmentOptionRanker::rank_options_with_weights(
        &[cand("combat", "通用战力", "获得攻击力和法术强度", 2)],
        &profiles,
        AugmentStage::Second,
        false,
        false,
        &weights,
    );
    let effect = AugmentEffectInterpreter::interpret("combat", "通用战力", "获得攻击力和法术强度", 2, 1);
    let type_bonus: i32 = effect
        .tags
        .iter()
        .map(|t| weights.weights.iter().find(|(k, _)| k == t).map(|(_, w)| *w).unwrap_or(0))
        .sum();
    let stage_bias = if effect.tags.iter().any(|t| t == "generic_combat" || t == "trait_commit") { 6 } else { 0 };
    let current_value = (effect.immediate_power + type_bonus + stage_bias).clamp(0, 100);
    let o = &options[0];
    assert_eq!(o.lineup_coverage, 50);
    assert_eq!(o.supported_lineup_ids, vec!["A".to_string()]);
    assert_eq!(o.tags, effect.tags);
    assert_eq!(o.current_value, current_value);
    assert_eq!(
        o.total_score,
        ((current_value * 35 + 50 * 35 + (100 - effect.lock_risk) * 20 + effect.reroll_value * 10) / 100).clamp(0, 100)
    );
    assert_eq!(
        o.fallback_score,
        ((50 * 45 + (100 - effect.lock_risk) * 35 + current_value * 20) / 100).clamp(0, 100)
    );
    assert!(o.reason.iter().any(|line| line == "覆盖 1 套候选阵容"));
}

#[test]
fn ranking_is_empty_without_candidates() {
    let options = AugmentOptionRanker::rank_options(&[], &[profile("A", &["x"], &[])], AugmentStage::First, true, false);
    assert!(options.is_empty());
}
