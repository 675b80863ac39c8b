use hexsight::reroll_eligibility_scorer::RerollEligibilityScorer;
use hexsight::rule_types::{LineupProfile, PlaystyleTag};

fn make_profile(carry_costs: Vec<i32>, tags: Vec<PlaystyleTag>) -> LineupProfile {
    LineupProfile {
        lineup_id: "test".into(),
        name: "测试阵容".into(),
        base_tier: 80,
        playstyle_tags: tags,
        final_hero_ids: vec![],
        carry_hero_ids: carry_costs.iter().map(|c| format!("hero_{}", c)).collect(),
        tank_hero_ids: vec![],
        core_equipment_ids: vec![],
        tank_equipment_ids: vec![],
        equipment_order_ids: vec![],
        recommended_hex_ids: vec![],
        replacement_hex_ids: vec![],
        early_hero_ids: vec![],
        mid_hero_ids: vec![],
        trait_targets: vec![],
        strategy_texts: vec![],
        mode_specific: hexsight::json::JsonValue::Null,
        carry_costs,
        category: None,
    }
}

#[test]
fn non_reroll_lineup_returns_zero() {
    let profile = make_profile(vec![4], vec![PlaystyleTag::Standard]);
    let result = RerollEligibilityScorer::assess(&profile, &[], 40, 100, 6, 0, 31);
    assert!(!result.is_recommended);
    assert_eq!(result.score, 0);
}

#[test]
fn reroll_with_good_conditions() {
    let profile = make_profile(vec![1], vec![PlaystyleTag::Standard, PlaystyleTag::Reroll1Cost]);
    let counts = vec![("hero_1".into(), 5)];
    let result = RerollEligibilityScorer::assess(&profile, &counts, 40, 100, 5, 0, 25);
    assert!(result.is_recommended);
    assert!(result.score >= 60);
}

#[test]
fn reroll_with_rival_and_low_hp() {
    let profile = make_profile(vec![1], vec![PlaystyleTag::Standard, PlaystyleTag::Reroll1Cost]);
    let counts = vec![("hero_1".into(), 3)];
    let result = RerollEligibilityScorer::assess(&profile, &counts, 15, 30, 5, 2, 35);
    assert!(!result.is_recommended);
}

#[test]
fn reroll_score_and_conditions_exact() {
    let profile = make_profile(vec![2, 1], vec![PlaystyleTag::Reroll1Cost]);
    let counts = vec![("hero_1".into(), 4), ("other".into(), 9), ("hero_2".into(), 1)];
    // 5 copies: 50*5/9 = 27; gold 25 -> +10; hp 60 -> +8; one rival -> -5; 1-cost after 3-5 -> -30.
    let result = RerollEligibilityScorer::assess(&profile, &counts, 25, 60, 5, 1, 41);
    assert_eq!(result.core_cost, 1);
    assert_eq!(result.current_core_count, 5);
    assert_eq!(result.score, 10);
    assert_eq!(result.recommended_level, 5);
    assert_eq!(result.stop_conditions[0], "主 C 三星（需 4 张）");
    assert_eq!(result.abandon_conditions.len(), 4);
    assert_eq!(result.abandon_conditions[3], "已过 1 费赌狗窗口");
    let all = [make_profile(vec![4], vec![]), profile.clone()];
    let cands = RerollEligibilityScorer::find_reroll_candidates(&all);
    assert_eq!(cands.len(), 1);
}

#[test]
fn many_held_pairs_are_counted() {
    let profile = make_profile(vec![1], vec![PlaystyleTag::Reroll1Cost]);
    let counts: Vec<(String, i32)> = (0..101).map(|_| ("hero_1".to_string(), 1)).collect();
    let result = RerollEligibilityScorer::assess(&profile, &counts, 0, 40, 5, 3, 25);
    assert_eq!(result.current_core_count, 101);
    assert_eq!(result.score, 100);
    assert_eq!(result.stop_conditions[0], "主 C 三星（需 -92 张）");
}
