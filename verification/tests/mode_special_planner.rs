use hexsight::json::JsonValue;
use hexsight::mode_special_planner::ModeSpecialPlanner;
use hexsight::rule_types::LineupProfile;

fn obj(members: Vec<(&str, JsonValue)>) -> JsonValue {
    JsonValue::Object(members.into_iter().map(|(k, v)| (k.to_string(), v)).collect())
}

fn text(s: &str) -> JsonValue {
    JsonValue::Str(s.to_string())
}

fn profile(name: &str, base_tier: i32, mode_specific: JsonValue) -> LineupProfile {
    LineupProfile {
        lineup_id: "test".into(),
        name: name.into(),
        base_tier,
        playstyle_tags: vec![],
        final_hero_ids: vec![],
        carry_hero_ids: vec![],
        tank_hero_ids: vec![],
        core_equipment_ids: vec![],
        tank_equipment_ids: vec![],
        equipment_order_ids: vec![],
        recommended_hex_ids: vec![],
        replacement_hex_ids: vec![],
        early_hero_ids: vec![],
        mid_hero_ids: vec![],
        trait_targets: vec![],
        strategy_texts: vec![],
        mode_specific,
        carry_costs: vec![4],
        category: None,
    }
}

#[test]
fn mode17_god_rewards_planned() {
    let ms = obj(vec![(
        "god_rewards",
        JsonValue::Array(vec![obj(vec![
            ("stage", JsonValue::Int(2)),
            ("god_id", text("2")),
            ("wish_ids", JsonValue::Array(vec![text("a"), text("b")])),
        ])]),
    )]);
    let plan = ModeSpecialPlanner::plan("17", &[profile("测试", 80, ms)]);
    assert!(!plan.god_reward_picks.is_empty());
    assert_eq!(plan.god_reward_picks[0].stage, 2);
    assert_eq!(plan.god_reward_picks[0].recommended_god_id, "2");
    assert_eq!(plan.god_reward_picks[0].reason, "2 阶段 2 神明奖励（2 个选项），适配阵容 测试");
    assert_eq!(plan.extra_rules.len(), 1);
}

#[test]
fn mode17_skips_incomplete_entries_and_later_lineups() {
    let good = |s: i64| obj(vec![("stage", JsonValue::Int(s)), ("god_id", text("g"))]);
    let bad = obj(vec![("stage", JsonValue::Number("2.5".into())), ("god_id", text("g"))]);
    let lineup = |name: &str| profile(name, 80, obj(vec![("god_rewards", JsonValue::Array(vec![good(3), bad.clone()]))]));
    let plan = ModeSpecialPlanner::plan("17", &[lineup("a"), lineup("b"), lineup("c"), lineup("d")]);
    assert_eq!(plan.god_reward_picks.len(), 3);
    assert_eq!(plan.god_reward_picks[2].reason, "3 阶段 g 神明奖励（0 个选项），适配阵容 c");
}

#[test]
fn mode16_lists_unlock_tasks() {
    let ms = obj(vec![(
        "unlock_tasks",
        JsonValue::Array(vec![obj(vec![("task_id", text("t1")), ("hero_id", text("h1"))]), obj(vec![])]),
    )]);
    let plan = ModeSpecialPlanner::plan("16", &[profile("阵容", 60, ms), profile("空", 60, JsonValue::Null)]);
    assert_eq!(plan.task_priorities.len(), 2);
    assert_eq!(plan.task_priorities[0].task_id, "t1");
    assert_eq!(plan.task_priorities[0].hero_name, "h1");
    assert_eq!(plan.task_priorities[0].priority, 5);
    assert_eq!(plan.task_priorities[0].reason, "阵容 阵容 的任务解锁");
    assert_eq!(plan.task_priorities[1].task_id, "");
    assert!(plan.god_reward_picks.is_empty());
}

#[test]
fn mode4_advises_chosen_trait_of_first_lineup() {
    let ms = obj(vec![("chosen_contact", obj(vec![("id", text("7")), ("type", text("race"))]))]);
    let plan = ModeSpecialPlanner::plan("4", &[profile("x", 80, ms)]);
    let advice = plan.chosen_advice.unwrap();
    assert_eq!(advice.target_trait, "7 (race)");
    assert!(advice.lock_early);
    assert!(advice.backup_heroes.is_empty());

    let none = ModeSpecialPlanner::plan("4", &[profile("x", 70, obj(vec![("chosen_contact", JsonValue::Null)]))]);
    let advice = none.chosen_advice.unwrap();
    assert_eq!(advice.target_trait, " ()");
    assert!(!advice.lock_early);
    assert!(ModeSpecialPlanner::plan("4", &[profile("x", 80, JsonValue::Null)]).chosen_advice.is_none());
}

#[test]
fn other_modes_have_no_special_rules() {
    let plan = ModeSpecialPlanner::plan("1", &[profile("x", 80, JsonValue::Null)]);
    assert_eq!(plan.mode, "1");
    assert!(plan.extra_rules.is_empty());
    assert!(plan.chosen_advice.is_none());
}
