use hexsight::data_types::{
    AugmentsContext, EquipRef, EquipmentContext, HexRef, LineupContextInfo, ModeContextInfo, RuleHeroSnapshot,
    RuleTraitSnapshot,
};
use hexsight::json::JsonValue;
use hexsight::llm_context::LlmContextBuilder;
use hexsight::rules_context::{ModeSpecificContext, RulesContextOutput};

fn context(with_extras: bool) -> RulesContextOutput {
    RulesContextOutput {
        mode: ModeContextInfo { id: "17".into(), name: "星神".into(), season: "18".into(), capabilities: vec![] },
        lineup: LineupContextInfo {
            id: "L1".into(),
            name: "神谕龙王".into(),
            author: "作者".into(),
            quality: "S".into(),
            tags: vec!["运营".into()],
        },
        final_heroes: vec![
            RuleHeroSnapshot {
                id: "1".into(),
                name: "龙王".into(),
                cost: 4,
                picture: String::new(),
                position: "4,2".into(),
                is_carry: true,
                equipment_ids: vec!["a".into(), "b".into()],
                equipment_names: vec!["无尽".into(), "巨杀".into()],
            },
            RuleHeroSnapshot {
                id: "2".into(),
                name: "石像".into(),
                cost: 2,
                picture: String::new(),
                position: "1,1".into(),
                is_carry: false,
                equipment_ids: vec![],
                equipment_names: vec![],
            },
        ],
        traits: vec![RuleTraitSnapshot {
            id: "10".into(),
            trait_id: "10".into(),
            trait_type: "race".into(),
            name: "神谕".into(),
            count: 4,
            color: 2,
            level: 2,
            picture: String::new(),
        }],
        augments: AugmentsContext {
            recommended: if with_extras { vec![HexRef { id: "h1".into(), name: "强化".into(), level: 2 }] } else { vec![] },
            replacement: vec![],
        },
        equipment: EquipmentContext {
            order: if with_extras { vec![EquipRef { id: "a".into(), name: "无尽".into() }] } else { vec![] },
        },
        mode_specific: ModeSpecificContext { god_rewards: vec![], unlock_tasks: vec![], chosen: None },
        strategy_texts: if with_extras {
            vec![("earlyInfo".into(), "前期运营".into()), ("dTime".into(), String::new())]
        } else {
            vec![]
        },
    }
}

#[test]
fn llm_text_lists_every_section() {
    let text = LlmContextBuilder::build(&context(true));
    let lines: Vec<&str> = text.split('\n').collect();
    assert_eq!(lines[0], "模式: 星神 (S18)");
    assert_eq!(lines[1], "阵容: 神谕龙王 by 作者");
    assert_eq!(lines[2], "评级: S 标签: [\"运营\"]");
    assert_eq!(lines[3], "英雄: 1 龙王[C] cost=4 pos=4,2 [无尽, 巨杀] | 2 石像 cost=2 pos=1,1");
    assert_eq!(lines[4], "羁绊: 神谕(race) x4");
    assert_eq!(lines[5], "符文: 强化 (Lv.2)");
    assert_eq!(lines[6], "装备优先级: 无尽");
    assert_eq!(lines[7], "策略: earlyInfo: 前期运营");
    assert_eq!(lines.len(), 8);
}

#[test]
fn llm_text_leaves_out_empty_sections() {
    let text = LlmContextBuilder::build(&context(false));
    assert_eq!(text.split('\n').count(), 5);
    assert!(!text.contains("符文"));
    assert!(!text.contains("策略"));
}

#[test]
fn compact_json_holds_lineup_heroes_and_traits() {
    let json = LlmContextBuilder::build_compact_json(&context(true));
    assert_eq!(json.get("lineup").and_then(|v| v.as_str()), Some("神谕龙王"));
    assert_eq!(json.get("season").and_then(|v| v.as_str()), Some("18"));
    let heroes = json.get("heroes").and_then(|v| v.as_array()).expect("heroes");
    assert_eq!(heroes.len(), 2);
    assert_eq!(heroes[0].get("cost").and_then(|v| v.as_i64()), Some(4));
    assert_eq!(heroes[0].get("carry").and_then(|v| v.as_bool()), Some(true));
    let traits = json.get("traits").and_then(|v| v.as_array()).expect("traits");
    assert_eq!(traits[0].get("type").and_then(|v| v.as_str()), Some("race"));
    let hexes = json.get("hexes").and_then(|v| v.as_array()).expect("hexes");
    assert_eq!(hexes[0].as_str(), Some("强化"));
    assert_eq!(json.get("strategy_hints").and_then(|v| v.get("earlyInfo")).and_then(|v| v.as_str()), Some("前期运营"));
    assert!(matches!(json.get("mode"), Some(JsonValue::Str(_))));
}
