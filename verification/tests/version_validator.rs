use hexsight::data_types::{EquipmentData, HeroData, LineupCardData, LineupDetailData, LineupPieceData};
use hexsight::game_data_index::GameDataIndex;
use hexsight::json::JsonValue;
use hexsight::lineup_adapter::LineupRawItem;
use hexsight::version_validator::validation_report;

fn piece(hero_id: &str, equips: &[&str]) -> LineupPieceData {
    LineupPieceData {
        hero_id: hero_id.into(),
        equipment_ids: equips.iter().map(|e| e.to_string()).collect(),
        ..LineupPieceData::default()
    }
}

fn card(name: &str, pieces: Vec<LineupPieceData>) -> LineupCardData {
    LineupCardData {
        name: name.into(),
        detail: LineupDetailData { final_heroes: pieces, ..LineupDetailData::default() },
        ..LineupCardData::default()
    }
}

fn raw(id: &str) -> LineupRawItem {
    LineupRawItem {
        id: id.into(),
        pid: String::new(),
        quality: String::new(),
        author: String::new(),
        channel: String::new(),
        lineupauthor_data: JsonValue::Null,
        detail: String::new(),
        extra: vec![],
    }
}

#[test]
fn validation_report_lists_missing_heroes_and_items() {
    let index = GameDataIndex::from_data(
        "17",
        vec![
            ("101".to_string(), HeroData { id: "101".into(), name: "Ahri".into(), price: "3".into(), ..HeroData::default() }),
            ("102".to_string(), HeroData { id: "102".into(), name: "Garen".into(), price: "1".into(), ..HeroData::default() }),
        ],
        vec![
            ("1001".to_string(), EquipmentData { id: "1001".into(), ..EquipmentData::default() }),
            ("2001".to_string(), EquipmentData { id: "2001".into(), ..EquipmentData::default() }),
        ],
        vec![],
        vec![],
        vec![],
        vec![],
        vec![],
        vec![],
        vec![],
    );
    let cards = vec![
        card("甲", vec![piece("101", &["1001", "0", "3003"]), piece("999", &["2001"])]),
        card("乙", vec![piece("101", &["3003"])]),
    ];
    let raws = vec![raw("a"), raw("b"), raw("c")];
    let r = validation_report("17", &index, &raws, &cards);
    assert_eq!(r.mode, "17");
    assert_eq!(r.total_lineups, 3);
    assert_eq!(r.parseable_lineups, 2);
    assert_eq!(r.unparseable_lineups, 1);
    assert_eq!(r.unique_hero_ids_in_lineups, 2);
    assert_eq!(r.unique_equip_ids_in_lineups, 3);
    assert_eq!(r.total_hero_ids_in_static, 2);
    assert_eq!(r.total_equip_ids_in_static, 2);
    assert_eq!(r.missing_hero_ids, vec!["999 (阵容: 甲)".to_string()]);
    assert_eq!(r.missing_equip_ids, vec!["3003 (阵容: 甲)".to_string(), "3003 (阵容: 乙)".to_string()]);
    assert!(!r.is_aligned);
}
