use hexsight::json::JsonValue;
use hexsight::lineup_adapter::{LineupAdapter, LineupRawItem};

fn raw(id: &str, detail: &str, extra: Vec<(&str, JsonValue)>) -> LineupRawItem {
    LineupRawItem {
        id: id.into(),
        pid: String::new(),
        quality: String::new(),
        author: "作者".into(),
        channel: String::new(),
        lineupauthor_data: JsonValue::Null,
        detail: detail.into(),
        extra: extra.into_iter().map(|(k, v)| (k.to_string(), v)).collect(),
    }
}

const DETAIL: &str = r#"{
    "line_name": "【法师 护卫】神谕龙王",
    "line_tag": "3",
    "hero_location": [
        {"hero_id": "101", "location": "1, 2", "equipment_id": "1001, 0,,1002", "is_carry_hero": true, "idInLineup": "7"},
        {"hero_id": "", "location": "1,1"},
        {"hero_id": "102", "location": "bad"},
        {"hero_id": "103", "location": "3,4", "chess_type": "summon", "idInLineup": 9}
    ],
    "hexbuff": {"recomm": "h1,h2", "replace": "h3"},
    "equipment_order": "1001,1002",
    "contact": [{"id": 10, "type": "race", "num": "4", "color": 2, "name": "法师"}, {"name": "无"}],
    "task_list": [{"task_id": "12301", "chess_id": 5}, {"task_id": ""}],
    "god_list": [{"god_id": "g1", "stage_num": 2, "wishes": ["w1", 7, ""]}, {"god_id": "g2", "wishes": "a, b"}],
    "chosen_contact": {"id": "7", "type": "job"},
    "messengerContact": {},
    "chosen_backup": [{"hero_$key_id": "h9", "id": "t9", "type": "x"}, {}],
    "hero_replace": [{"hero_id": "101", "replace_heros": "104,105"}],
    "early_info": "前期",
    "d_time": 42,
    "smar_lineup_tag": {"all": {"tag": ["强势", 3, "稳定"], "rate": {"top4_rate": 0.55}}},
    "author_littlelegend": {"desc": "小小英雄", "icon": "icon.png"}
}"#;

#[test]
fn card_reads_detail_document() {
    let card = LineupAdapter::card_from_raw(&raw("", DETAIL, vec![("queue_id", JsonValue::Str("q1".into()))])).unwrap();
    assert_eq!(card.id, "q1");
    assert_eq!(card.name, "【法师 护卫】神谕龙王");
    assert_eq!(card.quality, "A");
    assert_eq!(card.author, "小小英雄");
    assert_eq!(card.author_avatar, "icon.png");
    assert_eq!(card.category.as_deref(), Some("趣味娱乐"));
    assert_eq!(card.tags, vec!["强势".to_string(), "稳定".to_string()]);
    assert_eq!(card.traits, vec!["法师".to_string(), "无".to_string()]);
    assert!(matches!(card.top4_rate, Some(JsonValue::Number(ref t)) if t == "0.55"));

    let d = &card.detail;
    assert_eq!(d.final_heroes.len(), 2);
    let p = &d.final_heroes[0];
    assert_eq!(p.hero_id, "101");
    assert_eq!((p.row, p.col), (1, 2));
    assert_eq!(p.location_key, "1,2");
    assert_eq!(p.equipment_ids, vec!["1001".to_string(), "1002".to_string()]);
    assert!(p.is_carry_hero);
    assert_eq!(p.id_in_lineup, 7);
    assert_eq!(p.chess_type, "hero");
    assert_eq!(d.final_heroes[1].chess_type, "summon");
    assert_eq!(d.final_heroes[1].id_in_lineup, 9);
    assert_eq!(d.recommended_hex_ids, vec!["h1".to_string(), "h2".to_string()]);
    assert_eq!(d.replacement_hex_ids, vec!["h3".to_string()]);
    assert_eq!(d.equipment_order_ids.len(), 2);
    assert_eq!(d.official_traits.len(), 1);
    assert_eq!(d.official_traits[0].id, "10");
    assert_eq!(d.official_traits[0].count, 4);
    assert_eq!(d.official_traits[0].color, 2);
    assert_eq!(d.unlock_tasks.len(), 1);
    assert_eq!(d.unlock_tasks[0].hero_id, "123");
    assert_eq!(d.unlock_tasks[0].chess_id, "5");
    assert_eq!(d.god_rewards.len(), 2);
    assert_eq!(d.god_rewards[0].stage, 2);
    assert_eq!(d.god_rewards[0].wish_ids, vec!["w1".to_string(), "7".to_string()]);
    assert_eq!(d.god_rewards[1].stage, 0);
    assert_eq!(d.god_rewards[1].wish_ids, vec!["a".to_string(), "b".to_string()]);
    assert_eq!(d.chosen_contact.as_ref().unwrap().contact_type, "job");
    assert!(d.messenger_contact.is_none());
    assert_eq!(d.chosen_backups.len(), 1);
    assert_eq!(d.chosen_backups[0].hero_id, "h9");
    assert_eq!(d.hero_replacements[0].replacement_hero_ids, vec!["104".to_string(), "105".to_string()]);
    assert_eq!(d.early_info, "前期");
    assert_eq!(d.d_time, "42");
    assert_eq!(d.hex_info, "");
}

#[test]
fn card_falls_back_without_detail() {
    let card = LineupAdapter::card_from_raw(&raw("", "not json", vec![])).unwrap();
    assert_eq!(card.name, "未知阵容");
    assert_eq!(card.id, "未知阵容");
    assert_eq!(card.author, "作者");
    assert!(card.category.is_none());
    assert!(card.tags.is_empty());
    assert!(card.traits.is_empty());
    assert!(card.detail.final_heroes.is_empty());
    let named = LineupAdapter::card_from_raw(&raw("id9", "", vec![("name", JsonValue::Str("【甲/乙、丙】名".into()))])).unwrap();
    assert_eq!(named.id, "id9");
    assert_eq!(named.name, "【甲/乙、丙】名");
    assert_eq!(named.traits, vec!["甲".to_string(), "乙".to_string(), "丙".to_string()]);
}

#[test]
fn cards_sorted_by_category_then_name() {
    let d = |name: &str, tag: &str| format!(r#"{{"line_name": "{}", "line_tag": "{}"}}"#, name, tag);
    let list = vec![
        raw("1", &d("乙", "2"), vec![]),
        raw("2", &d("甲", "2"), vec![]),
        raw("3", &d("丙", "9"), vec![]),
        raw("4", &d("甲", "1"), vec![]),
    ];
    let cards = LineupAdapter::cards_from_raw_list(&list, "17");
    let ids: Vec<&str> = cards.iter().map(|c| c.id.as_str()).collect();
    // No category sorts first; "新手推荐" (U+65B0) before "高手进阶" (U+9AD8);
    // within a category "乙" (U+4E59) before "甲" (U+7532).
    assert_eq!(ids, vec!["3", "4", "1", "2"]);
}

#[test]
fn locations_trim_unicode_white_space() {
    let detail = "{\"line_name\": \"测试\", \"hero_location\": [{\"hero_id\": \"101\", \"location\": \"\\u3000 1,\\u00a02\\u2003\"}]}";
    let card = LineupAdapter::card_from_raw(&raw("x", detail, vec![])).unwrap();
    let p = &card.detail.final_heroes[0];
    assert_eq!((p.row, p.col), (1, 2));
}
