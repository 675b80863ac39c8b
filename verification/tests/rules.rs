use hexsight::decision::DecisionEngine;
use hexsight::error::HexError;
use hexsight::lineup::LineupDB;
use hexsight::rules::RulesEngine;
use hexsight::types::{DecisionSource, EquipmentType::{Defensive, Offensive, Utility}, GameState, RecognizedFrame, RiskLevel};

#[test]
fn rival_risk_levels() {
    let e = RulesEngine::new();
    assert_eq!(e.assess_rival_risk(0), RiskLevel::Low);
    assert_eq!(e.assess_rival_risk(1), RiskLevel::Low);
    assert_eq!(e.assess_rival_risk(2), RiskLevel::Medium);
    assert_eq!(e.assess_rival_risk(5), RiskLevel::High);
}

#[test]
fn roll_advice_by_health() {
    let e = RulesEngine::default();
    assert_eq!(e.roll_advice(60, 10, 0).unwrap(), "不D牌，保50利息");
    assert_eq!(e.roll_advice(30, 10, 0).unwrap(), "小幅D牌提质量");
    assert_eq!(e.roll_advice(29, 10, 0).unwrap(), "全力D牌保命");
    assert_eq!(e.classify_opening(&[], &[]).unwrap(), "物理");
    let frame = RecognizedFrame::default();
    assert_eq!(e.level_advice(&frame).unwrap(), "保持当前人口");
    assert_eq!(e.equip_remedy(&frame).unwrap(), "");
}

#[test]
fn empty_lineup_library() {
    let mut db = LineupDB::new();
    assert_eq!(db.count(), 0);
    assert_eq!(db.load_from_dir(&[]).unwrap(), 0);
    assert!(matches!(db.load_config("{}"), Err(HexError::Config(_))));
    assert_eq!(db.count(), 0);
    assert!(db.find_by_name("any").is_none());
    assert!(db.recommend(&RecognizedFrame::default(), 2).is_empty());
}

#[test]
fn decision_engine_flags_llm_on_risky_states() {
    let mut engine = DecisionEngine::new();
    assert!(engine.init(&[]).is_ok());
    let mut state = GameState::default();
    state.current.hp = 80;
    let calm = engine.decide(&state);
    assert_eq!(calm.source, DecisionSource::RuleEngine);
    assert!(!engine.llm_triggered);
    state.rival_count = 3;
    let risky = engine.decide(&state);
    assert_eq!(risky.source, DecisionSource::Hybrid);
    assert!(engine.llm_triggered);
    assert_eq!(engine.lineups().count(), 0);
    assert_eq!(engine.lineups_mut().count(), 0);
}

const LINEUP_JSON: &str = r#"{
    "name": "神谕龙王",
    "tier": "S",
    "playstyle": "运营",
    "main_carry": ["龙王"],
    "sub_carry": ["神谕"],
    "main_tank": ["石像"],
    "traits": ["神谕", "龙"],
    "carry_items": ["无尽", "巨杀"],
    "sub_carry_items": [],
    "tank_items": ["狂徒"],
    "transitions": [{"stage": "2-1", "units": ["a", "b"], "traits": ["龙"]}],
    "hextechs_best": ["hex_a"],
    "hextechs_ok": [],
    "hextechs_bad": ["hex_z"],
    "rival_strategies": {"low": "正常运营", "medium": "换副C", "high": "转阵容"},
    "unused": 1
}"#;

#[test]
fn load_config_adds_a_valid_lineup() {
    let mut db = LineupDB::new();
    assert!(db.load_config(LINEUP_JSON).is_ok());
    assert_eq!(db.count(), 1);
    let l = db.find_by_name("神谕龙王").expect("loaded lineup");
    assert_eq!(l.tier, "S");
    assert_eq!(l.carry_items, vec!["无尽".to_string(), "巨杀".to_string()]);
    assert_eq!(l.transitions.len(), 1);
    assert_eq!(l.transitions[0].units, vec!["a".to_string(), "b".to_string()]);
    assert_eq!(l.rival_strategies.high, "转阵容");
}

#[test]
fn load_config_refuses_wrong_types_and_bad_json() {
    let mut db = LineupDB::new();
    let wrong = LINEUP_JSON.replace(r#""tier": "S""#, r#""tier": 5"#);
    assert!(matches!(db.load_config(&wrong), Err(HexError::Config(_))));
    assert!(matches!(db.load_config("not json"), Err(HexError::Config(_))));
    let missing = LINEUP_JSON.replace(r#""hextechs_ok": [],"#, "");
    assert!(db.load_config(&missing).is_err());
    assert_eq!(db.count(), 0);
}

#[test]
fn load_from_dir_stops_at_the_first_refused_file() {
    let mut db = LineupDB::new();
    let files = vec![LINEUP_JSON.to_string(), "{}".to_string(), LINEUP_JSON.to_string()];
    assert!(db.load_from_dir(&files).is_err());
    assert_eq!(db.count(), 1);
    let mut db2 = LineupDB::new();
    assert_eq!(db2.load_from_dir(&[LINEUP_JSON.to_string(), LINEUP_JSON.to_string()]).unwrap(), 2);
    let mut engine = DecisionEngine::new();
    assert!(engine.init(&[LINEUP_JSON.to_string()]).is_ok());
    assert_eq!(engine.lineups().count(), 1);
}

fn component(name: &str, equip_type: hexsight::types::EquipmentType) -> hexsight::types::Equipment {
    hexsight::types::Equipment { name: name.into(), equip_type, completed: false }
}

#[test]
fn opening_follows_the_components() {
    let e = RulesEngine::new();
    let magic = vec![component("无用大棒", Offensive), component("女神之泪(水滴)", Utility), component("暴风大剑", Offensive)];
    assert_eq!(e.classify_opening(&magic, &[]).unwrap(), "法系");
    let tank = vec![component("锁子甲", Defensive), component("巨人腰带", Defensive), component("暴风大剑", Offensive)];
    assert_eq!(e.classify_opening(&tank, &[]).unwrap(), "重装");
    let attack = vec![component("暴风大剑", Offensive), component("反曲之弓", Offensive), component("锁子甲", Defensive)];
    assert_eq!(e.classify_opening(&attack, &[]).unwrap(), "物理");
}

#[test]
fn level_advice_by_round() {
    let e = RulesEngine::new();
    let mut frame = RecognizedFrame::default();
    frame.round = "2-5".into();
    assert_eq!(e.level_advice(&frame).unwrap(), "升6人口");
    frame.round = "4-1".into();
    assert_eq!(e.level_advice(&frame).unwrap(), "强升8人口");
    frame.round = "3-2".into();
    assert_eq!(e.level_advice(&frame).unwrap(), "保持当前人口");
}

#[test]
fn recommend_orders_by_items_then_heroes_then_tier() {
    let mut db = LineupDB::new();
    let b_tier = LINEUP_JSON.replace("神谕龙王", "B阵").replace(r#""tier": "S""#, r#""tier": "B""#);
    let no_items = LINEUP_JSON
        .replace("神谕龙王", "无装")
        .replace(r#""carry_items": ["无尽", "巨杀"]"#, r#""carry_items": []"#);
    assert!(db.load_config(&no_items).is_ok());
    assert!(db.load_config(&b_tier).is_ok());
    assert!(db.load_config(LINEUP_JSON).is_ok());
    let mut frame = RecognizedFrame::default();
    frame.own_equipment = vec![hexsight::types::Equipment { name: "无尽".into(), equip_type: Offensive, completed: true }];
    let top = db.recommend(&frame, 2);
    assert_eq!(top.len(), 2);
    assert_eq!(top[0].name, "神谕龙王");
    assert_eq!(top[1].name, "B阵");
    assert_eq!(db.recommend(&frame, 9).len(), 3);
}
