use hexsight::data_types::{
    EquipmentData, GodRewardData, HeroData, HexData, LineupCardData, LineupDetailData, LineupPieceData,
    TraitContactData, UnlockTaskData,
};
use hexsight::game_data_index::GameDataIndex;
use hexsight::json::JsonValue;
use hexsight::rules_context::RulesContextBuilder;

#[test]
fn supported_modes_non_empty() {
    let modes = RulesContextBuilder::supported_modes();
    assert_eq!(modes.len(), 3);
}

#[test]
fn mode_info_of_known_and_unknown_modes() {
    let m = RulesContextBuilder::mode_info("16");
    assert_eq!(m.name, "英雄联盟传奇");
    assert_eq!(m.capabilities, vec!["standardLineup", "unlockTasks", "transitionContacts"]);
    let u = RulesContextBuilder::mode_info("42");
    assert_eq!(u.id, "42");
    assert_eq!(u.name, "未知模式");
    assert_eq!(u.season, "S18");
    assert!(u.capabilities.is_empty());
}

fn context_card() -> LineupCardData {
    let detail = LineupDetailData {
        final_heroes: vec![LineupPieceData {
            hero_id: "1".into(),
            equipment_ids: vec!["2001".into(), "9999".into()],
            is_carry_hero: true,
            location_key: "4,2".into(),
            ..LineupPieceData::default()
        }],
        recommended_hex_ids: vec!["h1".into()],
        replacement_hex_ids: vec!["h2".into()],
        equipment_order_ids: vec!["2001".into(), "9999".into()],
        god_rewards: vec![GodRewardData { stage: 2, god_id: "g1".into(), wish_ids: vec!["w1".into()] }],
        unlock_tasks: vec![UnlockTaskData { task_id: "t1".into(), chess_id: "c".into(), hero_id: "1".into() }],
        chosen_contact: Some(TraitContactData { id: "10".into(), contact_type: "race".into(), ..TraitContactData::default() }),
        early_info: "前期运营".into(),
        d_time: "   ".into(),
        hex_info: "选战斗海克斯".into(),
        ..LineupDetailData::default()
    };
    LineupCardData {
        id: "L1".into(),
        name: "测试阵容".into(),
        author: "作者".into(),
        quality: "S".into(),
        tags: vec!["运营".into()],
        detail,
        ..LineupCardData::default()
    }
}

#[test]
fn build_context_without_game_data_keeps_ids() {
    let ctx = RulesContextBuilder::build(&context_card(), "17", None);
    assert_eq!(ctx.mode.name, "星神");
    assert_eq!(ctx.lineup.name, "测试阵容");
    assert_eq!(ctx.lineup.tags, vec!["运营".to_string()]);
    assert_eq!(ctx.final_heroes.len(), 1);
    assert_eq!(ctx.final_heroes[0].name, "1");
    assert_eq!(ctx.final_heroes[0].cost, 0);
    assert_eq!(ctx.final_heroes[0].equipment_names, vec!["2001".to_string(), "9999".to_string()]);
    assert!(ctx.final_heroes[0].is_carry);
    assert!(ctx.traits.is_empty());
    assert_eq!(ctx.augments.recommended[0].name, "h1");
    assert_eq!(ctx.augments.recommended[0].level, 0);
    assert_eq!(ctx.equipment.order[1].name, "9999");
    assert_eq!(ctx.mode_specific.god_rewards.len(), 1);
    assert_eq!(ctx.mode_specific.god_rewards[0].get("god_id").and_then(|v| v.as_str()), Some("g1"));
    assert_eq!(ctx.mode_specific.god_rewards[0].get("stage").and_then(|v| v.as_i64()), Some(2));
    assert_eq!(ctx.mode_specific.unlock_tasks[0].get("task_id").and_then(|v| v.as_str()), Some("t1"));
    assert_eq!(ctx.mode_specific.chosen.as_ref().unwrap().get("type").and_then(|v| v.as_str()), Some("race"));
    assert!(matches!(ctx.mode_specific.god_rewards[0].get("wish_ids"), Some(JsonValue::Array(_))));
    assert_eq!(
        ctx.strategy_texts,
        vec![("earlyInfo".to_string(), "前期运营".to_string()), ("hexInfo".to_string(), "选战斗海克斯".to_string())]
    );
}

#[test]
fn build_context_resolves_names_from_game_data() {
    let index = GameDataIndex::from_data(
        "17",
        vec![(
            "1".to_string(),
            HeroData { id: "1".into(), name: "超级机甲".into(), price: "4".into(), ..HeroData::default() },
        )],
        vec![(
            "2001".to_string(),
            EquipmentData { id: "2001".into(), name: "大剑".into(), equip_type: "成型装备".into(), ..EquipmentData::default() },
        )],
        vec![(
            "h1".to_string(),
            HexData { id: "h1".into(), name: "强化".into(), level: "2".into(), ..HexData::default() },
        )],
        vec![],
        vec![],
        vec![],
        vec![("2001".to_string(), "大剑".to_string())],
        vec![],
        vec![],
    );
    let ctx = RulesContextBuilder::build(&context_card(), "4", Some(&index));
    assert_eq!(ctx.mode.name, "天选福星");
    assert_eq!(ctx.final_heroes[0].name, "超级机甲");
    assert_eq!(ctx.final_heroes[0].equipment_names, vec!["大剑".to_string(), "9999".to_string()]);
    assert_eq!(ctx.augments.recommended[0].name, "强化");
    assert_eq!(ctx.augments.recommended[0].level, 2);
    assert_eq!(ctx.augments.replacement[0].name, "h2");
    assert_eq!(ctx.equipment.order[0].name, "大剑");
}
