use hexsight::augment_economy_planner::{AugmentFitScorer, AugmentScore, EconomyPlanner};
use hexsight::augment_effect_interpreter::AugmentEffect;

fn score(name: &str, total: i32, lock_risk: i32, supported: &[&str]) -> AugmentScore {
    AugmentScore {
        augment_id: "hex_a".into(),
        augment_name: name.into(),
        total_score: total,
        combat_power: 70,
        lineup_coverage: 60,
        lock_risk,
        playstyle_enable_value: 70,
        is_recommended: true,
        tags: vec!["trait_commit".into()],
        reasons: vec!["阵容1 推荐此海克斯".into()],
        supported_lineup_ids: supported.iter().map(|s| s.to_string()).collect(),
    }
}

#[test]
fn first_augment_decision_outputs_lock_or_not() {
    let scores = vec![score("海克斯A", 85, 25, &["1"])];
    let decision = AugmentFitScorer::first_augment_decision(&scores, 100);
    assert!(decision.recommended.contains("海克斯A"));
}

#[test]
fn strong_safe_augment_locks_its_lineups() {
    let decision = AugmentFitScorer::first_augment_decision(&[score("海克斯A", 85, 25, &["1", "2"])], 100);
    assert_eq!(decision.action, "take");
    assert!(decision.lock_lineup);
    assert_eq!(decision.recommended, "海克斯A (85分) [可锁: 1, 2]");
    assert_eq!(decision.follow_up, "方向明确，后续优先匹配此阵容装备和棋子");
}

#[test]
fn last_of_equal_scores_is_taken_and_low_health_is_noted() {
    let decision = AugmentFitScorer::first_augment_decision(
        &[score("甲", 70, 50, &[]), score("乙", 70, 50, &[])],
        30,
    );
    assert!(!decision.lock_lineup);
    assert_eq!(decision.recommended, "乙 (70分)");
    assert_eq!(decision.follow_up, "血量偏低，优先保战力，3-2 再确认方向");
}

#[test]
fn no_augment_takes_fallback() {
    let decision = AugmentFitScorer::first_augment_decision(&[], 80);
    assert_eq!(decision.action, "take_fallback");
    assert_eq!(decision.recommended, "无候选海克斯");
    assert!(!decision.lock_lineup);
}

#[test]
fn low_hp_forces_stabilize() {
    let result = EconomyPlanner::plan(20, 30, 6, 0, 35, false, false, None);
    assert_eq!(result.action, "roll_down_to_stabilize");
}

#[test]
fn streak_affects_decision() {
    let win = EconomyPlanner::plan(40, 100, 6, 3, 30, false, false, None);
    assert!(win.action.contains("level"));

    let loss = EconomyPlanner::plan(40, 100, 6, -3, 30, false, false, None);
    assert_eq!(loss.action, "save_interest");
}

#[test]
fn reroll_rhythm() {
    let result = EconomyPlanner::plan(45, 80, 5, 0, 25, false, true, Some(5));
    assert!(result.action.contains("slow_roll"));
}

#[test]
fn economy_plan_texts_and_targets() {
    let over = EconomyPlanner::plan(10, 45, 7, 0, 30, false, true, Some(5));
    assert_eq!(over.action, "reroll_or_pivot");
    assert_eq!(over.label, "卡 5 级 D 牌或考虑放弃");
    assert_eq!(over.target_gold, 10);
    assert_eq!(over.reasons, vec!["血量偏低，减少贪经济".to_string(), "已超过赌狗推荐等级 5，应尽快 D 牌或放弃".to_string()]);
    let locked = EconomyPlanner::plan(50, 80, 7, 0, 35, true, false, None);
    assert_eq!(locked.action, "level_up");
    let early_locked = EconomyPlanner::plan(50, 80, 7, 0, 34, true, false, None);
    assert_eq!(early_locked.action, "flexible");
    let loss = EconomyPlanner::plan(10, 80, 7, -4, 30, false, false, None);
    assert_eq!(loss.reasons, vec!["4-连败，保利息优先".to_string()]);
    assert_eq!(EconomyPlanner::plan(5, 80, 7, 0, 30, false, false, None).action, "save_all");
}

fn make_profile(id: &str, rec_hex: &[&str], rep_hex: &[&str]) -> hexsight::rule_types::LineupProfile {
    hexsight::rule_types::LineupProfile {
        lineup_id: id.into(),
        name: format!("阵容{}", id),
        base_tier: 80,
        playstyle_tags: vec![hexsight::rule_types::PlaystyleTag::Standard],
        final_hero_ids: vec![],
        carry_hero_ids: vec![],
        tank_hero_ids: vec![],
        core_equipment_ids: vec![],
        tank_equipment_ids: vec![],
        equipment_order_ids: vec![],
        recommended_hex_ids: rec_hex.iter().map(|s| s.to_string()).collect(),
        replacement_hex_ids: rep_hex.iter().map(|s| s.to_string()).collect(),
        early_hero_ids: vec![],
        mid_hero_ids: vec![],
        trait_targets: vec![],
        strategy_texts: vec![],
        mode_specific: hexsight::json::JsonValue::Null,
        carry_costs: vec![4],
        category: None,
    }
}

fn three_profiles() -> Vec<hexsight::rule_types::LineupProfile> {
    vec![
        make_profile("1", &["hex_a"], &[]),
        make_profile("2", &["hex_b"], &[]),
        make_profile("3", &["hex_a"], &["hex_c"]),
    ]
}

#[test]
fn first_augment_prefers_flexibility() {
    let profiles = three_profiles();
    let candidates = vec![("hex_a".to_string(), "海克斯A".to_string()), ("hex_c".to_string(), "海克斯C".to_string())];
    let scores = AugmentFitScorer::score(&candidates, &profiles, &vec![], true, false, true);
    assert!(!scores.is_empty());
    let best = &scores[0];
    assert!(best.lineup_coverage > 0);
}

#[test]
fn augment_scores_by_coverage_risk_and_opening() {
    let profiles = three_profiles();
    let candidates = vec![("hex_a".to_string(), "海克斯A".to_string()), ("hex_c".to_string(), "海克斯C".to_string())];
    let scores = AugmentFitScorer::score(&candidates, &profiles, &vec![], true, false, true);
    let a = &scores[0];
    assert_eq!(a.lineup_coverage, 66);
    assert_eq!(a.lock_risk, 45);
    assert_eq!(a.playstyle_enable_value, 70);
    assert_eq!(a.combat_power, 40);
    assert_eq!(a.total_score, 75);
    assert!(a.is_recommended);
    assert_eq!(a.supported_lineup_ids, vec!["1".to_string(), "3".to_string()]);
    assert_eq!(a.tags, vec!["trait_commit", "trait_commit", "generic_combat", "generic_econ"]);
    assert_eq!(a.reasons, vec!["阵容1 推荐此海克斯", "阵容3 推荐此海克斯", "当前开局较弱，优先通用经济/装备海克斯"]);
    let c = &scores[1];
    assert_eq!(c.lineup_coverage, 33);
    assert_eq!(c.lock_risk, 75);
    assert_eq!(c.total_score, 43);
    assert!(!c.is_recommended);
    assert_eq!(c.reasons[0], "阵容3 备选此海克斯");

    let later = AugmentFitScorer::score(&candidates[..1], &profiles, &vec![], false, true, false);
    assert_eq!(later[0].lock_risk, 20);
    assert_eq!(later[0].combat_power, 60);
    assert_eq!(later[0].total_score, 100);
    assert_eq!(AugmentFitScorer::score(&candidates, &[], &vec![], true, false, false)[0].lineup_coverage, 0);
}

#[test]
fn effect_scores_reuse_interpreter_values() {
    let profiles = three_profiles();
    let effects = vec![
        AugmentEffect {
            augment_id: "hex_a".into(),
            name: "海克斯A".into(),
            tags: vec!["reroll_enable".into()],
            immediate_power: 95,
            lineup_coverage: 2,
            lock_risk: 50,
            reroll_value: 120,
            reason: vec!["赌狗".into()],
        },
        AugmentEffect {
            augment_id: "hex_z".into(),
            name: "海克斯Z".into(),
            tags: vec!["hero_commit".into()],
            immediate_power: 3,
            lineup_coverage: 0,
            lock_risk: 90,
            reroll_value: 0,
            reason: vec![],
        },
    ];
    let strong = AugmentFitScorer::score_with_effects(&effects[..1], &profiles, &vec![], false, true, false);
    let a = &strong[0];
    assert_eq!(a.lineup_coverage, 66);
    assert_eq!(a.lock_risk, 30);
    assert_eq!(a.playstyle_enable_value, 100);
    assert_eq!(a.combat_power, 100);
    assert_eq!(a.total_score, 100);
    assert!(a.is_recommended);
    assert_eq!(a.reasons, vec!["赌狗", "支持多套阵容，弹性好"]);
    assert_eq!(a.tags, vec!["reroll_enable"]);

    let weak = AugmentFitScorer::score_with_effects(&effects[1..], &profiles, &vec![], true, false, true);
    let z = &weak[0];
    assert_eq!(z.lineup_coverage, 0);
    assert_eq!(z.lock_risk, 100);
    assert_eq!(z.playstyle_enable_value, 10);
    assert_eq!(z.combat_power, 0);
    assert_eq!(z.total_score, 0);
    assert!(!z.is_recommended);
    assert_eq!(z.reasons, vec!["覆盖 0 套阵容"]);
}
