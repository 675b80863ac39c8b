use hexsight::item_conflict_scorer::{
    ConflictEntry, ConflictStackingPolicy, CoverageType, EffectSource, ItemConflictGroup, ItemConflictGroups,
};
use hexsight::knowledge_types::{AugmentEffectProfile, ChampionCapability, ChampionRole, ItemPreferences, ItemValueProfile};
use hexsight::team_effect_coverage::TeamEffectCoverage;

fn group(label: &str, entries: Vec<ConflictEntry>) -> ItemConflictGroup {
    ItemConflictGroup {
        label: label.into(),
        conflicts: entries,
        stacking_policy: ConflictStackingPolicy { first_source: 100, second_source: 30, third_plus_source: 10 },
        notes: String::new(),
    }
}

fn make_conflict_groups() -> ItemConflictGroups {
    ItemConflictGroups {
        version: "test".into(),
        groups: vec![
            (
                "anti_heal".into(),
                group(
                    "重伤",
                    vec![
                        ConflictEntry { item_id: "2029".into(), item_name: "日炎斗篷".into(), coverage: CoverageType::AoeAura },
                        ConflictEntry { item_id: "2009".into(), item_name: "红霸符".into(), coverage: CoverageType::SingleTarget },
                    ],
                ),
            ),
            (
                "armor_shred".into(),
                group(
                    "破甲",
                    vec![ConflictEntry {
                        item_id: "2037".into(),
                        item_name: "轻语".into(),
                        coverage: CoverageType::SingleTargetSpell,
                    }],
                ),
            ),
            ("mana_engine".into(), group("回蓝", vec![])),
        ],
    }
}

fn source(kind: &str, id: &str, name: &str, group_id: &str, weight: i32) -> EffectSource {
    EffectSource {
        source_type: kind.into(),
        source_id: id.into(),
        source_name: name.into(),
        group_id: group_id.into(),
        coverage: CoverageType::Unknown,
        weight,
    }
}

#[test]
fn map_tag_to_group_coverage() {
    let coverage = TeamEffectCoverage::new(&make_conflict_groups());
    assert_eq!(coverage.map_tag_to_group("anti_heal"), Some("anti_heal".into()));
    assert_eq!(coverage.map_tag_to_group("重伤"), Some("anti_heal".into()));
    assert_eq!(coverage.map_tag_to_group("破甲"), Some("armor_shred".into()));
    assert_eq!(coverage.map_tag_to_group("unknown_tag"), None);
}

#[test]
fn report_orders_covered_groups_by_weight_and_lists_missing_ones() {
    let coverage = TeamEffectCoverage::new(&make_conflict_groups());
    let sources = vec![
        source("item", "2029", "日炎斗篷", "anti_heal", 100),
        source("trait", "t1", "炼金", "burn", 80),
        source("item", "2009", "红霸符", "anti_heal", 100),
    ];
    let report = coverage.build_coverage_report(&sources, &["2029".into(), "2009".into()]);
    assert_eq!(report.total_sources, 3);
    assert_eq!(report.covered.len(), 2);
    assert_eq!(report.covered[0].group_id, "anti_heal");
    assert_eq!(report.covered[0].source_count, 2);
    assert_eq!(report.covered[0].total_weight, 200);
    assert_eq!(report.covered[0].coverage_quality, "充分覆盖");
    assert_eq!(report.covered[0].primary_source, "item:日炎斗篷");
    assert_eq!(report.covered[1].label, "burn");
    assert_eq!(report.covered[1].coverage_quality, "部分覆盖");
    let missing: Vec<&str> = report.uncovered.iter().map(|u| u.group_id.as_str()).collect();
    assert_eq!(missing, vec!["armor_shred", "mana_engine"]);
    assert_eq!(report.uncovered[0].recommendation, "AD阵容推荐合成轻语或薄暮");
    assert_eq!(report.conflict_summary, "[anti_heal]: 日炎斗篷+红霸符");
    assert_eq!(
        report.summary,
        "已覆盖: 重伤(充分覆盖), burn(部分覆盖) | 未覆盖: 破甲, 回蓝 | 装备冲突: [anti_heal]: 日炎斗篷+红霸符"
    );
}

#[test]
fn empty_sources_produce_an_uncovered_report() {
    let coverage = TeamEffectCoverage::new(&make_conflict_groups());
    let report = coverage.build_coverage_report(&[], &[]);
    assert!(report.covered.is_empty());
    assert_eq!(report.uncovered.len(), 3);
    assert_eq!(report.total_sources, 0);
    assert_eq!(report.conflict_summary, "");
    assert_eq!(report.summary, "队伍无明确效果覆盖");
}

fn make_item_profile(id: &str, name: &str, effect_tags: Vec<&str>) -> ItemValueProfile {
    ItemValueProfile {
        item_id: id.into(),
        name: name.into(),
        item_type: "成型装备".into(),
        stats: vec![],
        effect_tags: effect_tags.into_iter().map(|s| s.to_string()).collect(),
        best_for_profiles: vec![],
        bad_for_profiles: vec![],
        replacement_group: String::new(),
        conflict_group: String::new(),
        stage_bias: String::new(),
        tier: None,
        damage_type_fit: vec![],
    }
}

#[test]
fn collects_effects_from_items() {
    let groups = make_conflict_groups();
    let coverage = TeamEffectCoverage::new(&groups);

    let item = make_item_profile("2029", "日炎斗篷", vec!["anti_heal", "burn"]);
    let sources = coverage.collect_all_sources(&["2029".into()], &[&item], &[], &[], &[]);

    assert!(sources.iter().any(|s| s.group_id == "anti_heal"));
    assert!(sources.iter().any(|s| s.group_id == "burn"));
    assert_eq!(sources.iter().filter(|s| s.source_type == "item").count(), 2);
    assert!(sources.iter().all(|s| s.coverage == CoverageType::AoeAura && s.weight == 100));
}

#[test]
fn detects_uncovered_groups() {
    let groups = make_conflict_groups();
    let coverage = TeamEffectCoverage::new(&groups);

    let item = make_item_profile("2029", "日炎斗篷", vec!["anti_heal"]);
    let sources = coverage.collect_all_sources(&["2029".into()], &[&item], &[], &[], &[]);

    let report = coverage.build_coverage_report(&sources, &["2029".into()]);
    assert!(report.uncovered.iter().any(|u| u.group_id == "armor_shred"));
    assert!(report.uncovered.iter().any(|u| u.group_id == "mana_engine"));
}

#[test]
fn coverage_quality_from_weight() {
    let groups = make_conflict_groups();
    let coverage = TeamEffectCoverage::new(&groups);

    let item = make_item_profile("2029", "日炎斗篷", vec!["anti_heal"]);
    let sources = coverage.collect_all_sources(&["2029".into()], &[&item], &[], &[], &[]);

    let report = coverage.build_coverage_report(&sources, &["2029".into()]);
    let anti_heal = report.covered.iter().find(|c| c.group_id == "anti_heal").unwrap();
    assert_eq!(anti_heal.source_count, 1);
    assert!(anti_heal.total_weight >= 100);
}

#[test]
fn empty_sources_produces_valid_report() {
    let groups = make_conflict_groups();
    let coverage = TeamEffectCoverage::new(&groups);

    let sources = coverage.collect_all_sources(&[], &[], &[], &[], &[]);
    let report = coverage.build_coverage_report(&sources, &[]);

    assert!(report.covered.is_empty());
    assert!(!report.uncovered.is_empty());
    assert_eq!(report.total_sources, 0);
}

#[test]
fn collects_augment_trait_and_skill_sources_in_order() {
    let coverage = TeamEffectCoverage::new(&make_conflict_groups());
    let augment = AugmentEffectProfile {
        augment_id: "a1".into(),
        name: "回蓝符文".into(),
        level: 1,
        tags: vec!["回蓝".into(), "nothing".into()],
        immediate_power: 0,
        lineup_coverage: 0,
        lock_risk: 0,
        hints: vec![],
    };
    let champion = ChampionCapability {
        hero_id: "h1".into(),
        name: "法师".into(),
        cost: 3,
        traits: vec![],
        role: ChampionRole::PrimaryCarry,
        damage_profile: "ap".into(),
        damage_pattern: vec![],
        cast_pattern: "mana_cast".into(),
        scaling_stats: vec![],
        position_role: "backline".into(),
        item_strictness: "medium".into(),
        power_spikes: vec![],
        risk_profile: vec!["重伤".into()],
        item_preferences: ItemPreferences::default(),
        confidence_percent: 80,
        needs_override: false,
    };
    let whisper = make_item_profile("2037", "最后的轻语", vec!["armor_shred"]);
    let sources = coverage.collect_all_sources(&["2037".into(), "9999".into()], &[&whisper], &[&augment], &[], &[&champion]);
    let kinds: Vec<(&str, &str, i32)> =
        sources.iter().map(|s| (s.source_type.as_str(), s.group_id.as_str(), s.weight)).collect();
    assert_eq!(
        kinds,
        vec![
            ("item", "armor_shred", 100),
            ("augment", "mana_engine", 90),
            ("champion_skill", "anti_heal", 70),
            ("champion_skill", "mana_engine", 30),
        ]
    );
    assert_eq!(sources[0].coverage, CoverageType::SingleTargetSpell);
}
