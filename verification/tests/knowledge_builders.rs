use hexsight::data_types::{EquipmentData, HeroData, HexData, TraitData};
use hexsight::knowledge_builders::{
    AugmentEffectProfileBuilder, ChampionCapabilityBuilder, ItemValueBuilder, KnowledgeBaseBuilder,
    TraitEffectProfileBuilder,
};
use hexsight::champion_item_fit::{ChampionItemOverrideEntry, ChampionItemOverrides};
use hexsight::knowledge_types::{ChampionRole, KnowledgeKeywords};

fn make_hero(name: &str, cost: i32, hp: i32, ad: i32, skill: &str) -> HeroData {
    HeroData {
        id: format!("hero_{}", name),
        name: name.into(),
        price: cost.to_string(),
        picture: "".into(),
        skillName: "测试".into(),
        skillDesc: skill.into(),
        skillIcon: "".into(),
        skillBriefValue: "100%".into(),
        skillValueDesc: "".into(),
        species: "1".into(),
        hero_class: "2".into(),
        initHP: hp.to_string(),
        initAttackDamage: ad.to_string(),
        attackSpeed: "0.7".into(),
        armor: "30".into(),
        magicResist: "30".into(),
        attackRange: "1".into(),
        initMP: "0".into(),
        maxMP: "80".into(),
        criticalStrikeChance: "25".into(),
        cost,
        base_key: "".into(),
        star_level: 1,
    }
}

fn make_equip(id: &str, name: &str, etype: &str, desc: &str) -> EquipmentData {
    EquipmentData {
        id: id.into(),
        name: name.into(),
        equip_type: etype.into(),
        picture: "".into(),
        basicDesc: desc.into(),
        desc: "".into(),
        synthesis1: "0".into(),
        synthesis2: "0".into(),
        icon: "".into(),
        is_component: etype == "基础装备",
        is_completed: etype == "成型装备",
    }
}

#[test]
fn build_carry_capability() {
    let builder = ChampionCapabilityBuilder::with_defaults();
    let hero = make_hero("主C", 4, 600, 85, "对目标造成大量物理伤害并降低护甲");
    let cap = builder.build(&hero);
    assert_eq!(cap.role, ChampionRole::PrimaryCarry);
    assert_eq!(cap.damage_profile, "ad");
    assert!(!cap.scaling_stats.is_empty());
}

#[test]
fn build_tank_capability() {
    let builder = ChampionCapabilityBuilder::with_defaults();
    let hero = make_hero("主坦", 3, 900, 50, "获得护盾持续3秒并嘲讽周围敌人");
    let cap = builder.build(&hero);
    assert!(matches!(cap.role, ChampionRole::MainTank | ChampionRole::OffTank));
    assert_eq!(cap.position_role, "frontline");
}

#[test]
fn coverage_report_generated() {
    let builder = ChampionCapabilityBuilder::with_defaults();
    let h1 = make_hero("C1", 4, 600, 85, "物理爆发伤害");
    let h2 = make_hero("C2", 3, 900, 50, "护盾嘲讽");
    let h3 = make_hero("C3", 2, 550, 60, "魔法伤害治疗");
    let heroes: Vec<&HeroData> = vec![&h1, &h2, &h3];
    let (caps, report) = builder.build_all(&heroes);
    assert_eq!(caps.len(), 3);
    assert!(report.total > 0);
}

#[test]
fn item_value_effect_tags() {
    let builder = ItemValueBuilder::with_defaults();
    let equip = make_equip("2001", "日炎斗篷", "成型装备", "每2秒灼烧周围敌人并施加重伤");
    let profile = builder.build(&equip);
    assert!(profile.effect_tags.iter().any(|t| t == "burn" || t == "anti_heal"));
}

#[test]
fn item_conflict_group_detected() {
    let builder = ItemValueBuilder::with_defaults();
    let equip = make_equip("2002", "红霸符", "成型装备", "攻击附带灼烧和重伤");
    let profile = builder.build(&equip);
    assert!(!profile.conflict_group.is_empty());
}

#[test]
fn capability_reads_traits_confidence_and_spikes() {
    let builder = ChampionCapabilityBuilder::with_defaults();
    let mut hero = make_hero("x", 2, 500, 40, "被动");
    hero.species = "5|0|-1||7".into();
    hero.hero_class = "9".into();
    let cap = builder.build(&hero);
    assert_eq!(cap.traits, vec!["5", "7", "9"]);
    assert_eq!(cap.cast_pattern, "passive");
    assert_eq!(cap.damage_pattern, vec!["single_target".to_string()]);
    assert_eq!(cap.confidence_percent, 50);
    assert!(!cap.needs_override);
    assert_eq!(cap.power_spikes[0].impact, 30);
    assert_eq!(cap.power_spikes[1].impact, 40);
    assert_eq!(cap.item_strictness, "low");
}

#[test]
fn batch_skips_dummies_and_reports_low_confidence() {
    let builder = ChampionCapabilityBuilder::with_defaults();
    let a = make_hero("木桩假人", 1, 500, 40, "");
    let b = make_hero("乙", 1, 500, 40, "");
    let c = make_hero("丙", 0, 500, 40, "");
    let (caps, report) = builder.build_all(&[&a, &b, &c]);
    assert_eq!(caps.len(), 1);
    assert_eq!(report.total, 1);
    assert_eq!(report.low_confidence, vec!["乙 (conf=0.40)".to_string()]);
    assert_eq!(report.needs_override, vec!["hero_乙".to_string()]);
}

#[test]
fn item_profile_fields() {
    let builder = ItemValueBuilder::with_defaults();
    let profile = builder.build(&make_equip("3", "大棒", "基础装备", "法强"));
    assert_eq!(profile.damage_type_fit, vec!["ap".to_string()]);
    assert_eq!(profile.best_for_profiles, vec!["法强", "回蓝", "暴击", "破防"]);
    assert_eq!(profile.stats.len(), 1);
    assert_eq!(profile.stats[0].name, "ap");
    assert_eq!(profile.stats[0].value, 10);
    assert_eq!(profile.stage_bias, "early");
    assert_eq!(profile.conflict_group, "");
}

#[test]
fn augment_profile_tags_power_and_risk() {
    let builder = AugmentEffectProfileBuilder::new(KnowledgeKeywords::default());
    let hex = HexData {
        id: "h".into(),
        name: "英雄专属".into(),
        level: "3".into(),
        desc: "获得20金币".into(),
        icon: "".into(),
        is_legend: 0,
        hero_enhancement_type: "".into(),
        fetterId: "".into(),
    };
    let p = builder.build(&hex);
    assert_eq!(p.tags, vec!["generic_econ", "hero_commit"]);
    assert_eq!(p.immediate_power, 70);
    assert_eq!(p.lock_risk, 60);
    assert_eq!(p.hints, vec!["经济收益"]);
}

#[test]
fn trait_profile_value_and_type() {
    let t = TraitData {
        checkId: "c1".into(),
        name: "斗士".into(),
        trait_type: 1,
        desc: "获得生命和伤害".into(),
        thresholds: vec![2, 4],
        ..Default::default()
    };
    let p = TraitEffectProfileBuilder.build(&t);
    assert_eq!(p.trait_type, "job");
    assert_eq!(p.lineup_value, 70);
    assert_eq!(p.effect_tags, vec!["damage", "defense"]);
    assert_eq!(p.thresholds, vec![2, 4]);
}

#[test]
fn knowledge_base_builders_share_keywords() {
    let b = KnowledgeBaseBuilder::with_defaults();
    assert_eq!(b.champ_builder.keywords.version, "S18.1");
    assert_eq!(b.item_builder.keywords.effect_tags.len(), 9);
}

#[test]
fn knowledge_base_skips_dummies_and_applies_item_overrides() {
    let b = KnowledgeBaseBuilder::with_defaults();
    let heroes = vec![
        make_hero("主C", 4, 600, 85, "对目标造成大量物理伤害并降低护甲"),
        make_hero("训练假人", 1, 500, 0, ""),
        make_hero("免费", 0, 500, 0, ""),
    ];
    let equips = vec![
        make_equip("e1", "无尽", "成型装备", "攻击力 暴击"),
        make_equip("e2", "暴风大剑", "基础装备", ""),
    ];
    let hexes = vec![HexData {
        id: "h".into(),
        name: "英雄专属".into(),
        level: "2".into(),
        desc: "获得20金币".into(),
        icon: "".into(),
        is_legend: 0,
        hero_enhancement_type: "".into(),
        fetterId: "".into(),
    }];
    let traits = vec![TraitData { checkId: "c1".into(), name: "斗士".into(), desc: "获得生命".into(), ..Default::default() }];
    let overrides = ChampionItemOverrides {
        version: "test".into(),
        overrides: vec![(
            "hero_主C".into(),
            ChampionItemOverrideEntry { item_strictness: Some("high".into()), notes: String::new() },
        )],
    };
    let plain = b.build_all(&heroes, &equips, &hexes, &traits);
    let kb = b.build_all_with_item_overrides(&heroes, &equips, &hexes, &traits, Some(&overrides));
    assert_eq!(kb.version, "S18.1");
    assert_eq!(kb.champions.len(), 1);
    assert_eq!(kb.champions[0].item_strictness, "high");
    assert_eq!(plain.champions.len(), 1);
    assert_eq!(plain.champions[0].hero_id, "hero_主C");
    assert_eq!(kb.items.len(), 2);
    assert_eq!(kb.augments.len(), 1);
    assert_eq!(kb.augments[0].immediate_power, 50);
    assert_eq!(kb.traits.len(), 1);
    assert_eq!(kb.coverage.champions.total, 1);
    assert_eq!(kb.coverage.items.total, 2);
    assert_eq!(kb.coverage.items.tagged + kb.coverage.items.low_confidence, 2);
    assert_eq!(kb.coverage.augments.tagged, 1);
    assert_eq!(kb.coverage.traits.tagged, 1);
}
