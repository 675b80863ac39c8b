use hexsight::rule_types::LineupProfile;
use hexsight::transition_risk_scorer::{RiskLevel, RiskScorer, TransitionLineupMatcher};

fn lineup(early: Vec<&str>, mid: Vec<&str>, traits: Vec<(&str, i32)>) -> LineupProfile {
    LineupProfile {
        lineup_id: "test".into(),
        name: "测试阵容".into(),
        base_tier: 80,
        playstyle_tags: vec![],
        final_hero_ids: vec![],
        carry_hero_ids: vec![],
        tank_hero_ids: vec![],
        core_equipment_ids: vec![],
        tank_equipment_ids: vec![],
        equipment_order_ids: vec![],
        recommended_hex_ids: vec![],
        replacement_hex_ids: vec![],
        early_hero_ids: early.into_iter().map(String::from).collect(),
        mid_hero_ids: mid.into_iter().map(String::from).collect(),
        trait_targets: traits.into_iter().map(|(t, n)| (t.to_string(), n)).collect(),
        strategy_texts: vec![],
        mode_specific: hexsight::json::JsonValue::Null,
        carry_costs: vec![3],
        category: None,
    }
}

#[test]
fn transition_matches_early_stage() {
    let profile = lineup(vec!["h1", "h2"], vec!["h3"], vec![("t1", 3)]);
    let current = vec!["h1".to_string(), "h4".to_string()];
    let matches = TransitionLineupMatcher::match_transitions(&[profile], &current, 25);
    assert_eq!(matches[0].early_hits, 1);
    assert_eq!(matches[0].mid_hits, 0);
    assert_eq!(matches[0].keep_hero_ids, vec!["h1"]);
    // early hits count double before 3-5: 2 of 3 listed heroes.
    assert_eq!(matches[0].transition_score, 66);
    assert_eq!(matches[0].transition_traits, vec!["t1 x3".to_string()]);
}

#[test]
fn transition_traits_and_best_match() {
    let a = lineup(vec!["h1"], vec!["h2"], vec![("a", 2), ("b", 5), ("c", 5), ("d", 1)]);
    let b = lineup(vec!["h9"], vec!["h2", "h3"], vec![]);
    let current = vec!["h2".to_string(), "h3".to_string()];
    let matches = TransitionLineupMatcher::match_transitions(&[a, b], &current, 41);
    assert_eq!(matches[0].transition_traits, vec!["b x5".to_string(), "c x5".to_string(), "a x2".to_string()]);
    assert_eq!(matches[0].transition_score, 100);
    assert_eq!(matches[1].transition_score, 100);
    let best = TransitionLineupMatcher::best_transition(&matches, 2).unwrap();
    assert_eq!(best.mid_hits, 2);
    assert!(TransitionLineupMatcher::best_transition(&matches, 3).is_none());
}

#[test]
fn risk_low_when_everything_good() {
    let report = RiskScorer::assess(100, 50, 6, false, 0, 80, 5, &[3], false, false, 30);
    assert_eq!(report.overall, RiskLevel::Low);
    assert!(!report.should_pivot);
}

#[test]
fn risk_critical_when_hp_low_and_no_items() {
    let report = RiskScorer::assess(20, 5, 5, true, 3, 10, 1, &[5], true, false, 45);
    assert_eq!(report.overall, RiskLevel::Critical);
    assert!(report.should_pivot);
}

#[test]
fn risk_medium_with_rival() {
    let report = RiskScorer::assess(80, 30, 6, false, 2, 60, 4, &[4], false, false, 40);
    assert_eq!(report.rival_risk, RiskLevel::Medium);
}

#[test]
fn risk_details_in_order() {
    let report = RiskScorer::assess(40, 15, 6, true, 2, 40, 0, &[5], false, false, 40);
    assert_eq!(report.hp_risk, RiskLevel::Medium);
    assert_eq!(report.item_risk, RiskLevel::Medium);
    assert_eq!(report.completion_risk, RiskLevel::High);
    assert_eq!(report.economy_risk, RiskLevel::Medium);
    assert_eq!(report.lock_risk, RiskLevel::Medium);
    assert_eq!(
        report.details,
        vec![
            "血量 40，偏低".to_string(),
            "同行 2 家".to_string(),
            "装备匹配率 40%".to_string(),
            "核心高费但等级不足".to_string(),
            "核心高费但经济不足".to_string(),
            "阵容已锁且有同行".to_string(),
        ]
    );
    // 2*2 + 2 + 2 + 3 + 2 + 2 = 15: medium, no pivot.
    assert_eq!(report.overall, RiskLevel::Medium);
    assert!(!report.should_pivot);
}
