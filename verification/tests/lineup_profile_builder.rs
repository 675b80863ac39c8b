use hexsight::data_types::{
    GodRewardData, HeroData, LineupCardData, LineupDetailData, LineupPieceData, TraitContactData, TraitData,
    UnlockTaskData,
};
use hexsight::game_data_index::GameDataIndex;
use hexsight::json::JsonValue;
use hexsight::lineup_profile_builder::LineupProfileBuilder;
use hexsight::rule_types::PlaystyleTag;

fn hero(id: &str, price: &str, armor: &str, hp: &str, species: &str) -> (String, HeroData) {
    (
        id.to_string(),
        HeroData {
            id: id.to_string(),
            name: format!("hero{}", id),
            price: price.to_string(),
            armor: armor.to_string(),
            initHP: hp.to_string(),
            species: species.to_string(),
            ..HeroData::default()
        },
    )
}

fn index() -> GameDataIndex {
    let traits = vec![TraitData {
        id: "t1".into(),
        name: "Mage".into(),
        checkId: "10".into(),
        trait_type: 0,
        color: "1".into(),
        level: 1,
        num: "2".into(),
        numList: "2".into(),
        ..TraitData::default()
    }];
    GameDataIndex::from_data(
        "17",
        vec![
            hero("1", "4", "20", "900", "10"),
            hero("2", "1", "45", "500", "10"),
            hero("3", "2", "10", "500", ""),
            hero("4", "5", "abc", "1000", ""),
        ],
        vec![],
        vec![],
        traits,
        vec![],
        vec![],
        vec![],
        vec![],
        vec![],
    )
}

fn piece(id: &str, carry: bool, row: i32, items: Vec<&str>) -> LineupPieceData {
    LineupPieceData {
        chess_type: "hero".to_string(),
        hero_id: id.to_string(),
        is_carry_hero: carry,
        row,
        equipment_ids: items.into_iter().map(String::from).collect(),
        ..LineupPieceData::default()
    }
}

fn card(quality: &str, detail: LineupDetailData) -> LineupCardData {
    LineupCardData {
        id: "L1".into(),
        name: "测试阵容".into(),
        quality: quality.into(),
        detail,
        ..LineupCardData::default()
    }
}

#[test]
fn profile_extracts_carries_tanks_and_items() {
    let detail = LineupDetailData {
        final_heroes: vec![
            piece("1", true, 4, vec!["i1", "i2", "i3"]),
            piece("2", false, 1, vec!["t1"]),
            piece("3", false, 2, vec![]),
            piece("9", false, 1, vec!["t2"]),
        ],
        early_heroes: vec![piece("3", false, 1, vec![])],
        official_traits: vec![
            TraitContactData { id: "10".into(), count: 2, ..TraitContactData::default() },
            TraitContactData { id: "20".into(), count: 1, ..TraitContactData::default() },
            TraitContactData { id: "10".into(), count: 4, ..TraitContactData::default() },
        ],
        early_info: "前期".into(),
        hex_info: "海克斯".into(),
        recommended_hex_ids: vec!["h1".into()],
        ..LineupDetailData::default()
    };
    let profile = LineupProfileBuilder::build(&card("S", detail), &index());
    assert_eq!(profile.lineup_id, "L1");
    assert_eq!(profile.base_tier, 100);
    assert_eq!(profile.carry_hero_ids, vec!["1".to_string()]);
    assert_eq!(profile.tank_hero_ids, vec!["2".to_string()]);
    assert_eq!(profile.core_equipment_ids, vec!["i1".to_string(), "i2".to_string(), "i3".to_string()]);
    assert_eq!(profile.tank_equipment_ids, vec!["t1".to_string(), "t2".to_string()]);
    assert_eq!(profile.final_hero_ids.len(), 4);
    assert_eq!(profile.early_hero_ids, vec!["3".to_string()]);
    assert_eq!(profile.trait_targets, vec![("10".to_string(), 4), ("20".to_string(), 1)]);
    assert_eq!(
        profile.strategy_texts,
        vec![("early".to_string(), "前期".to_string()), ("augment".to_string(), "海克斯".to_string())]
    );
    assert_eq!(profile.carry_costs, vec![4]);
    assert_eq!(
        profile.playstyle_tags,
        vec![
            PlaystyleTag::Standard,
            PlaystyleTag::Fast8,
            PlaystyleTag::ItemStrict,
            PlaystyleTag::LateCap,
            PlaystyleTag::AugmentEnabled,
        ]
    );
}

#[test]
fn profile_counts_traits_without_official_contacts() {
    let detail = LineupDetailData {
        final_heroes: vec![piece("1", true, 4, vec![]), piece("2", false, 1, vec![])],
        ..LineupDetailData::default()
    };
    let profile = LineupProfileBuilder::build(&card("A", detail), &index());
    assert_eq!(profile.trait_targets, vec![("10".to_string(), 2)]);
    assert_eq!(profile.base_tier, 80);
    assert!(profile.playstyle_tags.contains(&PlaystyleTag::EconOpen));
    assert!(profile.playstyle_tags.contains(&PlaystyleTag::ItemFlexible));
}

#[test]
fn profile_mode_data_holds_rewards_tasks_and_chosen() {
    let detail = LineupDetailData {
        god_rewards: vec![GodRewardData { stage: 2, god_id: "g".into(), wish_ids: vec!["a".into(), "b".into()] }],
        unlock_tasks: vec![UnlockTaskData { task_id: "t".into(), chess_id: "c".into(), hero_id: "h".into() }],
        chosen_contact: Some(TraitContactData { id: "7".into(), contact_type: "race".into(), ..TraitContactData::default() }),
        ..LineupDetailData::default()
    };
    let profile = LineupProfileBuilder::build(&card("B", detail), &index());
    let ms = &profile.mode_specific;
    let gods = ms.get("god_rewards").unwrap().as_array().unwrap();
    assert_eq!(gods.len(), 1);
    assert_eq!(gods[0].get("stage").unwrap().as_i64(), Some(2));
    assert_eq!(gods[0].get("god_id").unwrap().as_str(), Some("g"));
    assert_eq!(gods[0].get("wish_ids").unwrap().as_array().unwrap().len(), 2);
    let tasks = ms.get("unlock_tasks").unwrap().as_array().unwrap();
    assert_eq!(tasks[0].get("hero_id").unwrap().as_str(), Some("h"));
    let chosen = ms.get("chosen_contact").unwrap();
    assert_eq!(chosen.get("type").unwrap().as_str(), Some("race"));
    assert_eq!(profile.playstyle_tags, vec![PlaystyleTag::Standard]);
    let empty = LineupProfileBuilder::build(&card("B", LineupDetailData::default()), &index());
    assert!(matches!(empty.mode_specific.get("chosen_contact"), Some(JsonValue::Null)));
}

#[test]
fn playstyle_tags_from_carry_costs() {
    let tags = LineupProfileBuilder::infer_playstyle_tags(&[1, 2], "A", &[], &["h".to_string()], Some("趣味娱乐"));
    assert_eq!(
        tags,
        vec![
            PlaystyleTag::Standard,
            PlaystyleTag::Reroll1Cost,
            PlaystyleTag::Reroll2Cost,
            PlaystyleTag::ItemFlexible,
            PlaystyleTag::EconOpen,
            PlaystyleTag::AugmentEnabled,
            PlaystyleTag::ModeSpecial,
        ]
    );
    let fast = LineupProfileBuilder::infer_playstyle_tags(&[4, 5], "S", &[], &[], None);
    assert_eq!(
        fast,
        vec![PlaystyleTag::Standard, PlaystyleTag::Fast8, PlaystyleTag::Fast9, PlaystyleTag::ItemFlexible, PlaystyleTag::LateCap]
    );
    let three = LineupProfileBuilder::infer_playstyle_tags(&[3, 4], "C", &[], &[], None);
    assert_eq!(
        three,
        vec![PlaystyleTag::Standard, PlaystyleTag::Reroll3Cost, PlaystyleTag::Fast8, PlaystyleTag::ItemFlexible]
    );
    assert_eq!(LineupProfileBuilder::infer_playstyle_tags(&[], "S", &[], &[], None), vec![PlaystyleTag::Standard]);
}

#[test]
fn profiles_built_in_card_order() {
    let cards = vec![card("S", LineupDetailData::default()), card("X", LineupDetailData::default())];
    let profiles = LineupProfileBuilder::build_all(&cards, &index());
    assert_eq!(profiles.len(), 2);
    assert_eq!(profiles[0].base_tier, 100);
    assert_eq!(profiles[1].base_tier, 40);
}
