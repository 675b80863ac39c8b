use hexsight::augment_economy_planner::EconomyDecisionResult;
use hexsight::augment_reroll_scorer::{AugmentDecisionAction, AugmentRerollDecision};
use hexsight::holder_scorer::{HolderAction, HolderPlan, HolderRecommendation, HolderRole};
use hexsight::json::JsonValue;
use hexsight::knowledge_decision_planner::{CombatValueDiff, KnowledgeDecisionPlanner};
use hexsight::knowledge_types::PatchEntry;
use hexsight::opening_route_classifier::OpeningRouteResult;
use hexsight::patch_modifier::PatchKnowledge;
use hexsight::rule_types::{LineupProfile, LineupScore, OpeningRoute, PlaystyleTag, RuleOutput};

fn score(id: &str, total: i32, item_fit: i32) -> LineupScore {
    LineupScore {
        lineup_id: id.into(),
        name: format!("阵容{}", id),
        total_score: total,
        base_score: total,
        item_fit_score: item_fit,
        champion_hit_score: 60,
        augment_fit_score: 50,
        trait_fit_score: 60,
        stage_fit_score: 70,
        economy_fit_score: 75,
        health_safety_score: 90,
        playstyle_switch_score: 50,
        rival_penalty: 0,
        difficulty_penalty: 0,
        reasons: vec!["初始评分".into()],
        risks: vec![],
        requires_augment: false,
    }
}

fn profile(id: &str) -> LineupProfile {
    LineupProfile {
        lineup_id: id.into(),
        name: format!("阵容{}", id),
        base_tier: 80,
        playstyle_tags: vec![PlaystyleTag::Standard],
        final_hero_ids: vec!["hero_carry".into()],
        carry_hero_ids: vec!["hero_carry".into()],
        tank_hero_ids: vec!["hero_tank".into()],
        core_equipment_ids: vec!["item_core".into()],
        tank_equipment_ids: vec![],
        equipment_order_ids: vec!["item_core".into()],
        recommended_hex_ids: vec!["hex_good".into()],
        replacement_hex_ids: vec![],
        early_hero_ids: vec![],
        mid_hero_ids: vec![],
        trait_targets: vec![],
        strategy_texts: vec![],
        mode_specific: JsonValue::Null,
        carry_costs: vec![4],
        category: None,
    }
}

fn opening() -> OpeningRouteResult {
    OpeningRouteResult {
        route: OpeningRoute::Mixed,
        confidence_percent: 70,
        reasons: vec!["局势中等".into()],
        two_star_count: 2,
        frontline_quality: 55,
        can_build_combat_item: true,
        recommended_actions: vec!["稳血".into()],
    }
}

fn economy() -> EconomyDecisionResult {
    EconomyDecisionResult {
        action: "save_interest".into(),
        label: "保利息".into(),
        target_gold: 30,
        reasons: vec!["经济线健康".into()],
    }
}

fn holder(action: HolderAction) -> HolderPlan {
    HolderPlan {
        best: Some(HolderRecommendation {
            item_id: "item_core".into(),
            item_name: "核心输出装".into(),
            temporary_holder_id: "workhorse".into(),
            temporary_holder_name: "二星打工C".into(),
            holder_role: HolderRole::Carry,
            final_holder_id: Some("hero_carry".into()),
            final_holder_name: Some("主C".into()),
            score: 88,
            sell_cost: 2,
            action,
            reasons: vec!["二星质量高".into(), "装备机制匹配".into()],
        }),
        alternatives: vec![],
        summary: "当前装给二星打工C，后续转给主C".into(),
    }
}

#[test]
fn p7_integrates_knowledge_outputs_into_rule_output() {
    let augment_reroll = AugmentRerollDecision {
        action: AugmentDecisionAction::Reroll,
        recommended_augment_id: None,
        recommended_augment_name: None,
        fallback_augment_id: Some("fallback_hex".into()),
        lock_risk: 60,
        expected_reroll_gain: 18,
        reason: vec!["三个候选都低于当前阶段阈值".into()],
        ranked_options: vec![],
    };
    let patch = PatchKnowledge {
        version: "S18.1".into(),
        entries: vec![PatchEntry {
            patch_version: "S18.1".into(),
            published_at: "2026-05-25".into(),
            target_type: "champion".into(),
            target_id: "hero_carry".into(),
            target_name: "主C".into(),
            change_type: "nerf".into(),
            impact_score: -12,
            affected_lineups: vec!["line_a".into()],
            reason: "核心输出削弱".into(),
        }],
    };
    let combat = CombatValueDiff { score_diff: -16, winner: "right".into(), reasons: vec!["替代装备收益更高".into()] };
    let output: RuleOutput<()> = KnowledgeDecisionPlanner::plan(
        &opening(),
        &[score("line_a", 72, 38), score("line_b", 65, 70)],
        &[profile("line_a"), profile("line_b")],
        Some(&patch),
        "AP",
        &economy(),
        Some(&augment_reroll),
        Some(&holder(HolderAction::EquipNow)),
        Some(&combat),
        42,
    );

    assert_eq!(output.engine_version, "0.7.0");
    assert_eq!(output.augment_action.action, "reroll");
    assert!(output.item_action.reason.contains("二星打工C"));
    assert!(output.item_action.reason.contains("后续转给主C"));
    assert!(output.item_action.reason.contains("-16"));
    assert!(output.pivot_conditions.iter().any(|condition| condition.contains("装备适配偏低")));
    assert!(output.pivot_conditions.iter().any(|condition| condition.contains("收益估算显示")));
    assert!(output
        .lineup_recommendations
        .iter()
        .any(|lineup| lineup.risk.iter().any(|risk| risk.contains("核心输出削弱"))));

    let actions = output.knowledge_actions.expect("knowledge actions");
    assert_eq!(actions.holder.as_ref().unwrap().temporary_holder, "二星打工C");
    assert_eq!(actions.combat.as_ref().unwrap().score_diff, -16);
    assert_eq!(actions.combat.as_ref().unwrap().winner, "right");
    assert!(actions.short_explanations.iter().any(|value| value.contains("刷新")));
}

#[test]
fn knowledge_plan_texts_in_full() {
    let output: RuleOutput<()> = KnowledgeDecisionPlanner::plan_at(
        &opening(),
        &[score("a", 60, 80)],
        &[],
        None,
        "AD",
        &economy(),
        None,
        Some(&holder(HolderAction::WaitForTarget)),
        None,
        80,
        "9".into(),
    );
    assert_eq!(output.item_action.action, "wait_for_target");
    assert_eq!(output.item_action.reason, "核心输出装给二星打工C，后续转给主C；二星质量高; 装备机制匹配");
    assert_eq!(output.augment_action.recommended, "选择当前最高分海克斯");
    assert!(!output.augment_action.lock_lineup);
    assert_eq!(output.transition_action.route, "二星打工C 承载过渡");
    assert_eq!(output.transition_action.target_damage_per_round, "2-6");
    assert_eq!(output.transition_action.stop_loss_stage, "3-2");
    assert_eq!(output.pivot_conditions, vec!["当前承载者收益不足，等待目标主C或主坦".to_string()]);
    let actions = output.knowledge_actions.unwrap();
    assert_eq!(
        actions.short_explanations,
        vec!["核心输出装 先给 二星打工C".to_string(), "当前优先阵容 阵容a，评分 60".to_string()]
    );
    assert!(actions.patch.is_empty());
    assert_eq!(output.generated_at, "9");
}

#[test]
fn knowledge_plan_without_holder_uses_item_direction() {
    let take = AugmentRerollDecision {
        action: AugmentDecisionAction::Take,
        recommended_augment_id: Some("h".into()),
        recommended_augment_name: Some("好海克斯".into()),
        fallback_augment_id: None,
        lock_risk: 30,
        expected_reroll_gain: 0,
        reason: vec![],
        ranked_options: vec![],
    };
    let output: RuleOutput<()> = KnowledgeDecisionPlanner::plan_at(
        &opening(),
        &[],
        &[],
        None,
        "坦",
        &economy(),
        Some(&take),
        None,
        None,
        40,
        "0".into(),
    );
    assert_eq!(output.item_action.action, "build_tank");
    assert_eq!(output.augment_action.recommended, "拿 好海克斯");
    assert!(output.augment_action.lock_lineup);
    assert_eq!(output.transition_action.route, "按当前最高分阵容过渡");
    assert_eq!(output.transition_action.target_damage_per_round, "立即止血");
    assert_eq!(output.pivot_conditions, vec!["血量低于 45，优先止血".to_string()]);
    assert_eq!(output.knowledge_actions.unwrap().short_explanations, vec!["当前海克斯达到阈值，直接拿".to_string()]);
}
