use hexsight::augment_economy_planner::{AugmentScore, EconomyDecisionResult};
use hexsight::augment_reroll_scorer::{AugmentDecisionAction, AugmentRerollDecision, RankedAugmentOption};
use hexsight::decision_planner::{timestamp_text, DecisionPlanner};
use hexsight::opening_route_classifier::OpeningRouteResult;
use hexsight::rule_types::{LineupScore, OpeningRoute, RerollEligibility, RuleOutput};
use hexsight::transition_risk_scorer::{RiskLevel, RiskReport, TransitionMatch};

fn opening(route: OpeningRoute) -> OpeningRouteResult {
    OpeningRouteResult {
        route,
        confidence_percent: 65,
        reasons: vec!["状态中等".into()],
        two_star_count: 2,
        frontline_quality: 50,
        can_build_combat_item: true,
        recommended_actions: vec!["保血量".into()],
    }
}

fn score(id: &str, name: &str, total: i32) -> LineupScore {
    LineupScore {
        lineup_id: id.into(),
        name: name.into(),
        total_score: total,
        base_score: 80,
        item_fit_score: 70,
        champion_hit_score: 60,
        augment_fit_score: 50,
        trait_fit_score: 60,
        stage_fit_score: 70,
        economy_fit_score: 75,
        health_safety_score: 90,
        playstyle_switch_score: 50,
        rival_penalty: 0,
        difficulty_penalty: 0,
        reasons: vec!["装备匹配".into()],
        risks: vec![],
        requires_augment: false,
    }
}

fn economy() -> EconomyDecisionResult {
    EconomyDecisionResult {
        action: "save_interest".into(),
        label: "保利息".into(),
        target_gold: 30,
        reasons: vec!["经济中等".into()],
    }
}

fn augment(name: &str, total: i32, recommended: bool, supported: Vec<&str>) -> AugmentScore {
    AugmentScore {
        augment_id: "hex_a".into(),
        augment_name: name.into(),
        total_score: total,
        combat_power: 70,
        lineup_coverage: 60,
        lock_risk: 20,
        playstyle_enable_value: 50,
        is_recommended: recommended,
        tags: vec!["generic_combat".into()],
        reasons: vec!["提供即时战力".into()],
        supported_lineup_ids: supported.into_iter().map(String::from).collect(),
    }
}

fn risk(overall: RiskLevel, pivots: Vec<&str>) -> RiskReport {
    RiskReport {
        overall,
        hp_risk: RiskLevel::Low,
        rival_risk: RiskLevel::Low,
        item_risk: RiskLevel::Low,
        completion_risk: RiskLevel::Low,
        economy_risk: RiskLevel::Low,
        lock_risk: RiskLevel::Low,
        details: vec!["当前局势稳定".into()],
        priorities: vec!["保经济".into()],
        should_pivot: false,
        pivot_reasons: pivots.into_iter().map(String::from).collect(),
    }
}

fn transition(name: &str, score: i32) -> TransitionMatch {
    TransitionMatch {
        lineup_id: "4514".into(),
        lineup_name: name.into(),
        early_hits: 2,
        mid_hits: 1,
        transition_score: score,
        keep_hero_ids: vec!["h1".into()],
        transition_traits: vec!["牧羊人 x3".into()],
    }
}

fn reroll(id: &str, recommended: bool, abandon: Vec<&str>) -> RerollEligibility {
    RerollEligibility {
        score: 60,
        lineup_id: id.into(),
        core_cost: 1,
        current_core_count: 3,
        target_count: 9,
        recommended_level: 5,
        tempo: "slow".into(),
        stop_conditions: vec![],
        abandon_conditions: abandon.into_iter().map(String::from).collect(),
        rival_count: 0,
        is_recommended: recommended,
    }
}

#[test]
fn plan_full_integrates_all_p1_outputs() {
    let scores = vec![score("4514", "神谕龙王", 82)];
    let augment_scores = vec![augment("通用战力", 65, true, vec!["4514", "other"])];
    let transitions = vec![transition("神谕龙王", 65)];
    let output: RuleOutput<()> = DecisionPlanner::plan(
        &opening(OpeningRoute::Mixed),
        &scores,
        "AD",
        &economy(),
        &augment_scores,
        true,
        &risk(RiskLevel::Low, vec![]),
        &[],
        &transitions,
        None,
        100,
    );

    assert_eq!(output.strategy, "混合过渡");
    assert_eq!(output.lineup_recommendations.len(), 1);
    assert!(output.economy_action.action.contains("save"));
    assert!(output.augment_action.recommended.contains("通用战力"));
    assert!(!output.augment_action.lock_lineup);
    assert!(output.pivot_conditions.is_empty());
    assert!(output.fight_outcome.is_none());
}

#[test]
fn plan_picks_top_three_and_appends_risk_details() {
    let scores = vec![
        score("a", "A", 50),
        score("b", "B", 90),
        score("c", "C", 70),
        score("d", "D", 90),
    ];
    let output: RuleOutput<u8> = DecisionPlanner::plan_at(
        &opening(OpeningRoute::LossStreak),
        &scores,
        "坦",
        &economy(),
        &[],
        false,
        &risk(RiskLevel::High, vec![]),
        &[],
        &[transition("T1", 40), transition("T2", 40)],
        Some(7),
        "123".into(),
    );
    let ids: Vec<&str> = output.lineup_recommendations.iter().map(|r| r.lineup_id.as_str()).collect();
    assert_eq!(ids, vec!["b", "d", "c"]);
    assert_eq!(output.lineup_recommendations[0].risk, vec!["当前局势稳定".to_string()]);
    assert_eq!(output.strategy, "精致连败");
    assert_eq!(output.economy_action.reason, "经济中等");
    assert_eq!(output.item_action.action, "build_tank");
    assert_eq!(output.item_action.reason, "当前装备方向: 坦");
    assert_eq!(output.augment_action.recommended, "优先补阵容匹配海克斯");
    assert_eq!(output.transition_action.route, "匹配 T2");
    assert_eq!(output.transition_action.target_damage_per_round, "5-8");
    assert_eq!(output.transition_action.stop_loss_stage, "3-2");
    assert_eq!(output.fight_outcome, Some(7));
    assert_eq!(output.generated_at, "123");
    assert_eq!(output.engine_version, "0.3.0");
}

#[test]
fn plan_locks_direction_for_strong_narrow_augment() {
    let scores = vec![score("a", "A", 40)];
    let augment_scores = vec![
        augment("弱", 90, false, vec!["a"]),
        augment("强", 75, true, vec!["a", "b"]),
        augment("同分", 75, true, vec!["a"]),
    ];
    let output: RuleOutput<()> = DecisionPlanner::plan_at(
        &opening(OpeningRoute::WinStreak),
        &scores,
        "混合",
        &economy(),
        &augment_scores,
        false,
        &risk(RiskLevel::Low, vec![]),
        &[reroll("r1", false, vec!["放弃1", "放弃2"]), reroll("r2", true, vec!["保留"])],
        &[],
        None,
        "0".into(),
    );
    assert_eq!(output.augment_action.recommended, "同分 (75分)");
    assert!(output.augment_action.lock_lineup);
    assert_eq!(output.augment_action.follow_up, "锁定阵容: a");
    assert_eq!(output.item_action.action, "hold_flexible");
    assert_eq!(output.transition_action.route, "无明确过渡匹配");
    assert_eq!(output.pivot_conditions, vec!["放弃1".to_string(), "放弃2".to_string()]);
}

#[test]
fn plan_low_best_lineup_adds_watch_note() {
    let output: RuleOutput<()> = DecisionPlanner::plan_at(
        &opening(OpeningRoute::Mixed),
        &[score("a", "A", 45)],
        "AP",
        &economy(),
        &[],
        true,
        &risk(RiskLevel::Medium, vec![]),
        &[],
        &[],
        None,
        "0".into(),
    );
    assert_eq!(output.pivot_conditions, vec!["当前最佳阵容评分偏低，继续观察".to_string()]);
    assert_eq!(output.augment_action.recommended, "通用经济/装备海克斯");
    assert_eq!(output.item_action.action, "build_ap");
}

#[test]
fn plan_stamps_current_time() {
    let output: RuleOutput<()> = DecisionPlanner::plan(
        &opening(OpeningRoute::Mixed),
        &[],
        "AD",
        &economy(),
        &[],
        true,
        &risk(RiskLevel::Low, vec!["转向"]),
        &[],
        &[],
        None,
        100,
    );
    assert!(output.generated_at.chars().all(|c| c.is_ascii_digit()));
    assert!(output.generated_at.parse::<u64>().unwrap() > 1_600_000_000);
    assert_eq!(output.pivot_conditions, vec!["转向".to_string()]);
}

#[test]
fn timestamp_text_renders_seconds() {
    assert_eq!(timestamp_text(Some(1700000000)), "1700000000");
    assert_eq!(timestamp_text(Some(0)), "0");
    assert_eq!(timestamp_text(None), "unknown");
}

#[test]
fn legacy_plan_by_route_and_health() {
    let scores = vec![score("a", "神谕龙王", 80), score("b", "B", 55)];
    let output: RuleOutput<()> = DecisionPlanner::plan_legacy_at(
        &opening(OpeningRoute::WinStreak),
        &scores,
        ("save", "攒钱"),
        ("hold", "等待"),
        &[reroll("r1", true, vec!["没抓到"]), reroll("r2", false, vec!["忽略"])],
        30,
        "1".into(),
    );
    assert_eq!(output.strategy, "连胜");
    assert_eq!(output.economy_action.action, "save");
    assert_eq!(output.item_action.reason, "等待");
    assert_eq!(output.augment_action.recommended, "优先选择 神谕龙王 的推荐海克斯");
    assert!(output.augment_action.lock_lineup);
    assert_eq!(output.transition_action.route, "win_streak_maintain");
    assert_eq!(
        output.pivot_conditions,
        vec![
            "血量低于 45，停止贪经济".to_string(),
            "血量低于 35，立即止血".to_string(),
            "[r1] 没抓到".to_string(),
        ]
    );
    assert_eq!(output.engine_version, "0.2.0");
}

#[test]
fn legacy_plan_without_lineups() {
    let output: RuleOutput<()> = DecisionPlanner::plan_legacy(
        &opening(OpeningRoute::LossStreak),
        &[],
        ("a", "b"),
        ("c", "d"),
        &[],
        100,
    );
    assert_eq!(output.augment_action.recommended, "通用经济海克斯");
    assert_eq!(output.transition_action.target_damage_per_round, "4-8");
    assert!(output.pivot_conditions.is_empty());
}

#[test]
fn augment_reroll_decision_replaces_augment_advice() {
    let decision = AugmentRerollDecision {
        action: AugmentDecisionAction::Take,
        recommended_augment_id: Some("x".into()),
        recommended_augment_name: Some("海克斯X".into()),
        fallback_augment_id: None,
        lock_risk: 30,
        expected_reroll_gain: 0,
        reason: vec!["理由一".into(), "理由二".into()],
        ranked_options: vec![RankedAugmentOption {
            augment_id: "x".into(),
            augment_name: "海克斯X".into(),
            total_score: 80,
            current_value: 70,
            lineup_coverage: 50,
            lock_risk: 30,
            fallback_score: 40,
            tags: vec![],
            supported_lineup_ids: vec!["a".into()],
            reason: vec![],
        }],
    };
    let output: RuleOutput<()> = DecisionPlanner::plan_with_augment_reroll_at(
        &opening(OpeningRoute::Mixed),
        &[score("a", "A", 80)],
        "AD",
        &economy(),
        &[augment("通用战力", 65, true, vec![])],
        true,
        Some(&decision),
        &risk(RiskLevel::Low, vec![]),
        &[],
        &[],
        None,
        "5".into(),
    );
    assert_eq!(output.augment_action.action, "take");
    assert_eq!(output.augment_action.recommended, "拿 海克斯X");
    assert!(output.augment_action.lock_lineup);
    assert_eq!(output.augment_action.follow_up, "理由一; 理由二");
    assert_eq!(output.engine_version, "0.4.0");

    let reroll = AugmentRerollDecision { action: AugmentDecisionAction::Reroll, ..decision.clone() };
    let d = DecisionPlanner::augment_decision_from_reroll(&reroll);
    assert_eq!(d.action, "reroll");
    assert_eq!(d.recommended, "刷新当前三个海克斯");
    assert!(!d.lock_lineup);

    let without: RuleOutput<()> = DecisionPlanner::plan_with_augment_reroll(
        &opening(OpeningRoute::Mixed),
        &[score("a", "A", 80)],
        "AD",
        &economy(),
        &[augment("通用战力", 65, true, vec![])],
        true,
        None,
        &risk(RiskLevel::Low, vec![]),
        &[],
        &[],
        None,
        100,
    );
    assert_eq!(without.augment_action.recommended, "通用战力 (65分)");
    assert_eq!(without.augment_action.follow_up, "锁定阵容: ");
    assert_eq!(without.engine_version, "0.3.0");
}

#[test]
fn rule_output_contains_p4_reroll_action() {
    let scores = vec![LineupScore {
        lineup_id: "lineup_a".into(),
        name: "阵容A".into(),
        total_score: 70,
        base_score: 80,
        item_fit_score: 50,
        champion_hit_score: 50,
        augment_fit_score: 20,
        trait_fit_score: 50,
        stage_fit_score: 60,
        economy_fit_score: 60,
        health_safety_score: 80,
        playstyle_switch_score: 40,
        rival_penalty: 0,
        difficulty_penalty: 0,
        reasons: vec![],
        risks: vec![],
        requires_augment: false,
    }];
    let economy = EconomyDecisionResult {
        action: "save_interest".into(),
        label: "保利息".into(),
        target_gold: 30,
        reasons: vec![],
    };
    let augment_scores = vec![AugmentScore {
        augment_id: "bad_a".into(),
        augment_name: "低分海克斯".into(),
        total_score: 35,
        combat_power: 30,
        lineup_coverage: 0,
        lock_risk: 80,
        playstyle_enable_value: 10,
        is_recommended: false,
        tags: vec![],
        reasons: vec![],
        supported_lineup_ids: vec![],
    }];
    let mut risk_report = risk(RiskLevel::Low, vec![]);
    risk_report.details = vec![];
    risk_report.priorities = vec![];
    let transitions = vec![TransitionMatch {
        lineup_id: "lineup_a".into(),
        lineup_name: "阵容A".into(),
        early_hits: 1,
        mid_hits: 0,
        transition_score: 50,
        keep_hero_ids: vec![],
        transition_traits: vec![],
    }];
    let reroll_decision = AugmentRerollDecision {
        action: AugmentDecisionAction::Reroll,
        recommended_augment_id: None,
        recommended_augment_name: None,
        fallback_augment_id: Some("fallback_a".into()),
        lock_risk: 80,
        expected_reroll_gain: 20,
        reason: vec!["三个候选都低于最低可接受分，建议刷新".into()],
        ranked_options: vec![RankedAugmentOption {
            augment_id: "bad_a".into(),
            augment_name: "低分海克斯".into(),
            total_score: 35,
            current_value: 30,
            lineup_coverage: 0,
            lock_risk: 80,
            fallback_score: 25,
            tags: vec![],
            supported_lineup_ids: vec![],
            reason: vec![],
        }],
    };
    let mut opening_result = opening(OpeningRoute::Mixed);
    opening_result.reasons = vec![];
    opening_result.recommended_actions = vec![];

    let output: RuleOutput<()> = DecisionPlanner::plan_with_augment_reroll(
        &opening_result,
        &scores,
        "混合",
        &economy,
        &augment_scores,
        true,
        Some(&reroll_decision),
        &risk_report,
        &[],
        &transitions,
        None,
        100,
    );

    assert_eq!(output.augment_action.action, "reroll");
    assert!(output.augment_action.recommended.contains("刷新"));
    assert!(!output.augment_action.lock_lineup);
}
