use hexsight::lineup_fit::{
    augment_fit, champion_hit, difficulty_penalty, economy_fit, health_safety, playstyle_switch, stage_fit, trait_fit,
};
use hexsight::rule_types::{LineupProfile, PlaystyleTag};

fn profile(tags: Vec<PlaystyleTag>, carry_costs: Vec<i32>) -> LineupProfile {
    LineupProfile {
        lineup_id: "line_a".into(),
        name: "阵容A".into(),
        base_tier: 80,
        playstyle_tags: tags,
        final_hero_ids: vec!["hero_carry".into(), "hero_tank".into()],
        carry_hero_ids: vec!["hero_carry".into()],
        tank_hero_ids: vec!["hero_tank".into()],
        core_equipment_ids: vec!["item_core".into()],
        tank_equipment_ids: vec![],
        equipment_order_ids: vec![],
        recommended_hex_ids: vec!["augment_core".into()],
        replacement_hex_ids: vec!["augment_alt".into()],
        early_hero_ids: vec!["hero_early".into()],
        mid_hero_ids: vec![],
        trait_targets: vec![("trait_core".into(), 4)],
        strategy_texts: vec![],
        mode_specific: hexsight::json::JsonValue::Null,
        carry_costs,
        category: None,
    }
}

fn ids(v: &[&str]) -> Vec<String> {
    v.iter().map(|s| s.to_string()).collect()
}

#[test]
fn champion_hits_count_final_and_early_heroes() {
    let p = profile(vec![PlaystyleTag::Standard], vec![4]);
    let mut reasons = Vec::new();
    assert_eq!(champion_hit(&p, &ids(&["hero_carry"]), &mut reasons), 33);
    assert_eq!(reasons, vec!["英雄命中 1 个".to_string()]);
    let mut more = Vec::new();
    assert_eq!(champion_hit(&p, &ids(&["hero_carry", "hero_early"]), &mut more), 66);
    assert_eq!(champion_hit(&p, &ids(&["hero_carry", "hero_early", "hero_tank"]), &mut more), 100);
    let mut none = Vec::new();
    assert_eq!(champion_hit(&p, &ids(&["other"]), &mut none), 0);
    assert!(none.is_empty());
}

#[test]
fn augment_and_playstyle_fit() {
    let p = profile(vec![PlaystyleTag::AugmentEnabled], vec![4]);
    let mut reasons = Vec::new();
    assert_eq!(augment_fit(&p, &ids(&[]), &mut reasons), 50);
    assert_eq!(augment_fit(&p, &ids(&["augment_core"]), &mut reasons), 90);
    assert_eq!(augment_fit(&p, &ids(&["augment_alt"]), &mut reasons), 70);
    assert_eq!(augment_fit(&p, &ids(&["x"]), &mut reasons), 40);
    assert_eq!(reasons, vec!["海克斯命中推荐 1".to_string(), "海克斯命中备选 1".to_string()]);
    let mut r2 = Vec::new();
    assert_eq!(playstyle_switch(&p, &ids(&["augment_core"]), &mut r2), 95);
    assert_eq!(r2, vec!["关键海克斯已激活".to_string()]);
    assert_eq!(playstyle_switch(&p, &ids(&["x"]), &mut r2), 30);
    let plain = profile(vec![PlaystyleTag::Standard], vec![4]);
    assert_eq!(playstyle_switch(&plain, &ids(&["augment_core"]), &mut r2), 50);
}

#[test]
fn stage_economy_health_and_difficulty() {
    let reroll = profile(vec![PlaystyleTag::Reroll1Cost, PlaystyleTag::Reroll3Cost], vec![5]);
    assert_eq!(stage_fit(&reroll, 35, 6), 85);
    assert_eq!(stage_fit(&reroll, 41, 6), 20);
    assert_eq!(stage_fit(&reroll, 40, 6), 70);
    let fast = profile(vec![PlaystyleTag::Fast8, PlaystyleTag::Fast9, PlaystyleTag::ItemStrict], vec![4]);
    assert_eq!(stage_fit(&fast, 35, 7), 80);
    assert_eq!(stage_fit(&fast, 25, 5), 60);
    assert_eq!(economy_fit(&fast, 45), 85);
    assert_eq!(economy_fit(&fast, 15), 30);
    assert_eq!(economy_fit(&reroll, 30), 75);
    assert_eq!(economy_fit(&reroll, 10), 50);
    assert_eq!(economy_fit(&reroll, 9), 30);
    let mut reasons = Vec::new();
    let mut risks = Vec::new();
    assert_eq!(health_safety(25, &mut reasons, &mut risks), 20);
    assert_eq!(health_safety(45, &mut reasons, &mut risks), 50);
    assert_eq!(health_safety(85, &mut reasons, &mut risks), 90);
    assert_eq!(health_safety(60, &mut reasons, &mut risks), 70);
    assert_eq!(risks, vec!["血量危险".to_string(), "血量偏低".to_string()]);
    assert_eq!(reasons, vec!["血量安全".to_string()]);
    assert_eq!(difficulty_penalty(&reroll, 31), 13);
    assert_eq!(difficulty_penalty(&reroll, 30), 5);
    assert_eq!(difficulty_penalty(&fast, 40), 15);
    assert_eq!(trait_fit(&fast, &ids(&["hero_tank"])), 60);
    assert_eq!(trait_fit(&fast, &ids(&["x"])), 30);
}
