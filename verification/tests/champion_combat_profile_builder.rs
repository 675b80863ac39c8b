use hexsight::champion_combat_profile_builder::ChampionCombatProfileBuilder;
use hexsight::data_types::HeroData;

fn make_hero(name: &str, skill: &str, hp: i32, ad: i32, armor: i32) -> HeroData {
    HeroData {
        id: "test".into(),
        name: name.into(),
        price: "3".into(),
        picture: "".into(),
        skillName: "测试技能".into(),
        skillDesc: skill.into(),
        skillIcon: "".into(),
        skillBriefValue: "100%".into(),
        skillValueDesc: "".into(),
        species: "".into(),
        hero_class: "".into(),
        initHP: hp.to_string(),
        initAttackDamage: ad.to_string(),
        attackSpeed: "0.7".into(),
        armor: armor.to_string(),
        magicResist: "30".into(),
        attackRange: "1".into(),
        initMP: "0".into(),
        maxMP: "80".into(),
        criticalStrikeChance: "25".into(),
        cost: 3,
        base_key: "".into(),
        star_level: 1,
    }
}

#[test]
fn tank_profile() {
    let hero = make_hero("主坦", "获得护盾持续3秒", 900, 50, 60);
    let profile = ChampionCombatProfileBuilder::build(&hero);
    assert!(profile.role_tags.contains(&"主坦".to_string()));
    assert!(profile.special_tags.contains(&"护盾".to_string()));
}

#[test]
fn carry_profile() {
    let hero = make_hero("主C", "对目标造成大量物理伤害", 600, 85, 30);
    let profile = ChampionCombatProfileBuilder::build(&hero);
    assert!(profile.role_tags.contains(&"主C".to_string()));
    assert_eq!(profile.damage_type, "物理");
}

#[test]
fn control_mage() {
    let hero = make_hero("控制法师", "眩晕周围敌人并造成魔法伤害", 550, 40, 20);
    let profile = ChampionCombatProfileBuilder::build(&hero);
    assert!(profile.role_tags.contains(&"控制".to_string()));
    assert!(profile.attack_pattern.contains(&"范围".to_string()));
    assert_eq!(profile.damage_type, "魔法");
}

#[test]
fn unparsable_stats_take_defaults_and_tempo_follows_mana() {
    let mut hero = make_hero("x", "", 0, 0, 0);
    hero.initHP = "abc".into();
    hero.initMP = "50".into();
    hero.maxMP = "80".into();
    let profile = ChampionCombatProfileBuilder::build(&hero);
    assert_eq!(profile.base_hp, 500);
    assert_eq!(profile.cast_tempo, "快启动");
    assert_eq!(profile.targeting, "当前目标");
    assert_eq!(profile.attack_pattern, vec!["单体".to_string()]);
    assert_eq!(profile.role_tags, vec!["功能".to_string()]);
}

#[test]
fn build_all_keeps_order() {
    let a = make_hero("a", "后排", 900, 50, 60);
    let b = make_hero("b", "距离最远", 500, 90, 20);
    let profiles = ChampionCombatProfileBuilder::build_all(&[&a, &b]);
    assert_eq!(profiles.len(), 2);
    assert_eq!(profiles[0].targeting, "后排");
    assert_eq!(profiles[1].targeting, "最远");
}
