use hexsight::champion_item_fit::{ChampionItemFitScorer, ItemReplacementGroups, ItemSynthesisIndex, ItemTier, ReplacementGroup};
use hexsight::item_conflict_scorer::{
    ConflictEntry, ConflictEnvironment, ConflictStackingPolicy, CoverageType, ItemConflictGroup, ItemConflictGroups,
    ItemConflictScorer,
};
use hexsight::knowledge_types::{ChampionCapability, ChampionRole, ItemPreferences, ItemStat, ItemValueProfile, PowerSpike};

fn make_ap_carry() -> ChampionCapability {
    ChampionCapability {
        hero_id: "ap1".into(),
        name: "AP主C".into(),
        cost: 4,
        traits: vec!["sorcerer".into()],
        role: ChampionRole::PrimaryCarry,
        damage_profile: "ap".into(),
        damage_pattern: vec!["burst".into()],
        cast_pattern: "mana_cast".into(),
        scaling_stats: vec!["ability_power".into(), "mana".into()],
        position_role: "backline".into(),
        item_strictness: "high".into(),
        power_spikes: vec![PowerSpike { spike_type: "star".into(), value: 2, impact: 20 }],
        risk_profile: vec!["burst_damage".into()],
        item_preferences: ItemPreferences::default(),
        confidence_percent: 80,
        needs_override: false,
    }
}

fn make_ap_item(id: &str, name: &str, has_mana: bool) -> ItemValueProfile {
    let mut effect_tags = vec![];
    let mut stats = vec![ItemStat { name: "ap".into(), value: 30 }];
    if has_mana {
        effect_tags.push("mana_engine".into());
        stats.push(ItemStat { name: "mana".into(), value: 15 });
    }
    ItemValueProfile {
        item_id: id.into(),
        name: name.into(),
        item_type: "成型装备".into(),
        stats,
        effect_tags,
        best_for_profiles: vec!["ap".into()],
        bad_for_profiles: vec![],
        replacement_group: "".into(),
        conflict_group: "".into(),
        stage_bias: "mid_late".into(),
        tier: None,
        damage_type_fit: vec!["ap".into()],
    }
}

fn make_ad_item(id: &str, name: &str) -> ItemValueProfile {
    ItemValueProfile {
        item_id: id.into(),
        name: name.into(),
        item_type: "成型装备".into(),
        stats: vec![ItemStat { name: "ad".into(), value: 30 }],
        effect_tags: vec![],
        best_for_profiles: vec!["ad".into()],
        bad_for_profiles: vec![],
        replacement_group: "".into(),
        conflict_group: "".into(),
        stage_bias: "mid_late".into(),
        tier: None,
        damage_type_fit: vec!["ad".into()],
    }
}

#[test]
fn ap_carry_prefers_ap_items() {
    let champ = make_ap_carry();
    let items = vec![make_ap_item("i1", "法爆", true), make_ad_item("i2", "无尽")];
    let fits = ChampionItemFitScorer::score_all_items(&champ, &items);
    let best = &fits[0];
    assert_eq!(best.item_name, "法爆");
    assert!(best.score > 50);
}

#[test]
fn mana_item_ranks_core_for_mana_cast() {
    let champ = make_ap_carry();
    let items = vec![make_ap_item("i1", "青龙刀", true), make_ap_item("i2", "帽子", false)];
    let fits = ChampionItemFitScorer::score_all_items(&champ, &items);
    assert!(fits[0].score > fits[1].score, "回蓝装应评分更高");
}

#[test]
fn item_gap_detected() {
    let champ = make_ap_carry();
    let all_items = vec![make_ap_item("i1", "法爆", true), make_ap_item("i2", "帽子", false)];
    let (_fits, impact) = ChampionItemFitScorer::score_with_item_context(
        &champ,
        &all_items,
        &["法爆".into(), "青龙刀".into()],
        &[],
        &[],
        None,
        None,
    );
    assert!(impact.core_missing_penalty > 0);
    assert!(!impact.alternatives.is_empty());
}

#[test]
fn recommended_items_as_strong_prior() {
    let champ = make_ap_carry();
    let items = vec![make_ap_item("id_fb", "法爆", true), make_ad_item("id_ie", "无尽")];
    let (fits, impact) = ChampionItemFitScorer::score_with_recommended(&champ, &items, &["id_fb".into()], &[]);
    assert_eq!(fits[0].item_name, "法爆");
    assert!(impact.core_missing_penalty >= 0);
}

#[test]
fn replacement_group_drives_gap_alternatives() {
    let champ = make_ap_carry();
    let items = vec![
        make_ap_item("id_shojin", "青龙刀", true),
        make_ap_item("id_blue", "蓝霸符", true),
        make_ap_item("id_archangel", "大天使", false),
        make_ad_item("id_ie", "无尽"),
    ];
    let groups = ItemReplacementGroups {
        version: "test".into(),
        groups: vec![(
            "ap_mana".into(),
            ReplacementGroup {
                label: "AP回蓝装".into(),
                item_ids: vec!["id_shojin".into(), "id_blue".into()],
                item_names: vec!["大天使".into()],
                items: vec![],
                replaces_for: vec!["ap_carry_mana".into()],
                notes: String::new(),
            },
        )],
    };
    let (_fits, impact) = ChampionItemFitScorer::score_with_item_context(
        &champ,
        &items,
        &["id_shojin".into()],
        &[],
        &[],
        Some(&groups),
        None,
    );
    assert_eq!(impact.alternatives[0], "蓝霸符");
    assert_eq!(impact.alternatives[1], "大天使");
}

#[test]
fn synthesis_components_reduce_missing_core_penalty() {
    let champ = make_ap_carry();
    let items = vec![make_ap_item("id_shojin", "青龙刀", true)];
    let synthesis = ItemSynthesisIndex::from_routes(vec![(
        "id_shojin".to_string(),
        vec!["bf_sword".to_string(), "tear".to_string()],
    )]);
    let (_fits, impact) = ChampionItemFitScorer::score_with_item_context(
        &champ,
        &items,
        &["id_shojin".into()],
        &[],
        &["bf_sword".into(), "tear".into()],
        None,
        Some(&synthesis),
    );
    assert_eq!(impact.core_missing_penalty, 10);
    assert!(impact.explanation.contains("可合成 1 件"));
}

#[test]
fn conflict_context_lowers_repeated_effect_recommendation() {
    let champ = make_ap_carry();
    let items = vec![make_ap_item("2009", "红霸符", false), make_ap_item("2020", "莫雷洛秘典", false)];
    let groups = vec![(
        "anti_heal".to_string(),
        ItemConflictGroup {
            label: "重伤".into(),
            conflicts: vec![
                ConflictEntry { item_id: "2009".into(), item_name: "红霸符".into(), coverage: CoverageType::SingleTarget },
                ConflictEntry { item_id: "2029".into(), item_name: "日炎斗篷".into(), coverage: CoverageType::AoeAura },
            ],
            stacking_policy: ConflictStackingPolicy { first_source: 100, second_source: 30, third_plus_source: 10 },
            notes: String::new(),
        },
    )];
    let scorer = ItemConflictScorer::new(&ItemConflictGroups { version: "test".into(), groups });
    let (plain_fits, _) = ChampionItemFitScorer::score_with_item_context(
        &champ,
        &items,
        &["2009".into()],
        &["2029".into()],
        &[],
        None,
        None,
    );
    let (conflict_fits, _) = ChampionItemFitScorer::score_with_item_context_and_conflicts(
        &champ,
        &items,
        &["2009".into()],
        &["2029".into()],
        &[],
        None,
        None,
        Some(&scorer),
        &ConflictEnvironment::default(),
    );
    let plain_red = plain_fits.iter().find(|fit| fit.item_id == "2009").unwrap();
    let conflict_red = conflict_fits.iter().find(|fit| fit.item_id == "2009").unwrap();
    assert!(conflict_red.score < plain_red.score);
    assert!(conflict_red.penalties.iter().any(|penalty| penalty.contains("重伤")));
}

#[test]
fn exact_scores_and_tiers() {
    let champ = make_ap_carry();
    let fits = ChampionItemFitScorer::score_all_items(&champ, &[make_ap_item("i1", "法爆", true), make_ad_item("i2", "无尽")]);
    // 40 base + 25 damage type + 20 scaling + 15 mana cast + 10 backline mana.
    assert_eq!(fits[0].score, 100);
    assert_eq!(fits[0].tier, ItemTier::Core);
    assert_eq!(fits[0].reasons, vec!["机制高度匹配".to_string()]);
    assert_eq!(fits[1].score, 40);
    assert_eq!(fits[1].tier, ItemTier::Acceptable);
}

#[test]
fn synthesis_needs_every_component() {
    let index = ItemSynthesisIndex::from_routes(vec![("x".to_string(), vec!["a".to_string(), "a".to_string()])]);
    assert!(!index.can_synthesize("x", &["a".into()]));
    assert!(index.can_synthesize("x", &["a".into(), "b".into(), "a".into()]));
    assert!(!index.can_synthesize("y", &["a".into()]));
}

#[test]
fn preferences_group_names_by_tier() {
    let champ = make_ap_carry();
    let prefs = ChampionItemFitScorer::item_preferences(&champ, &[make_ap_item("i1", "法爆", true), make_ad_item("i2", "无尽")]);
    assert_eq!(prefs.core, vec!["法爆".to_string()]);
    assert_eq!(prefs.acceptable, vec!["无尽".to_string()]);
    assert!(prefs.bad.is_empty());
}

#[test]
#[allow(deprecated)]
fn older_gap_assessment() {
    let champ = make_ap_carry();
    let all = vec![make_ap_item("i1", "法爆", true), make_ap_item("i2", "帽子", false)];
    let g = ChampionItemFitScorer::assess_item_gaps(&champ, &["i1".into(), "x".into(), "y".into()], &[], &all);
    assert_eq!(g.core_missing_penalty, 60);
    assert_eq!(g.alternatives, vec!["帽子".to_string()]);
    assert!(g.should_pivot);
    assert_eq!(g.explanation, "缺 3 件核心装且替代不足，建议考虑转阵容");
}
