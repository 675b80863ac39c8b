use hexsight::item_conflict_scorer::{
    ConflictEntry, ConflictEnvironment, ConflictStackingPolicy, CoverageType, EffectSource, EnvironmentModifier,
    ItemConflictGroup, ItemConflictGroups, ItemConflictScorer, StackingPolicies, StackingPolicyDef,
};

fn make_conflict_groups() -> ItemConflictGroups {
    let groups = vec![
        (
            "anti_heal".to_string(),
            ItemConflictGroup {
                label: "重伤".into(),
                conflicts: vec![
                    ConflictEntry { item_id: "2009".into(), item_name: "红霸符".into(), coverage: CoverageType::SingleTarget },
                    ConflictEntry { item_id: "2029".into(), item_name: "日炎斗篷".into(), coverage: CoverageType::AoeAura },
                ],
                stacking_policy: ConflictStackingPolicy { first_source: 100, second_source: 30, third_plus_source: 10 },
                notes: String::new(),
            },
        ),
        (
            "armor_shred".to_string(),
            ItemConflictGroup {
                label: "破甲".into(),
                conflicts: vec![
                    ConflictEntry {
                        item_id: "2037".into(),
                        item_name: "轻语".into(),
                        coverage: CoverageType::SingleTargetSpell,
                    },
                    ConflictEntry { item_id: "2032".into(), item_name: "薄暮".into(), coverage: CoverageType::AoeAura },
                ],
                stacking_policy: ConflictStackingPolicy { first_source: 100, second_source: 25, third_plus_source: 5 },
                notes: String::new(),
            },
        ),
    ];
    ItemConflictGroups { version: "test".into(), groups }
}

fn ids(v: &[&str]) -> Vec<String> {
    v.iter().map(|s| s.to_string()).collect()
}

#[test]
fn no_conflict_with_single_item() {
    let scorer = ItemConflictScorer::new(&make_conflict_groups());
    let warnings = scorer.detect_conflicts(&ids(&["2009"]));
    assert!(warnings.is_empty(), "单件装备不应有冲突");
}

#[test]
fn detects_anti_heal_conflict() {
    let scorer = ItemConflictScorer::new(&make_conflict_groups());
    let warnings = scorer.detect_conflicts(&ids(&["2009", "2029"]));
    assert!(!warnings.is_empty(), "日炎+红霸符应有重伤冲突");
    let anti_heal_warn = warnings.iter().find(|w| w.group_id == "anti_heal").unwrap();
    assert_eq!(anti_heal_warn.penalty_score, -42);
}

#[test]
fn no_conflict_across_different_groups() {
    let scorer = ItemConflictScorer::new(&make_conflict_groups());
    let warnings = scorer.detect_conflicts(&ids(&["2009", "2037"]));
    let anti_heal = warnings.iter().any(|w| w.group_id == "anti_heal");
    let armor = warnings.iter().any(|w| w.group_id == "armor_shred");
    assert!(!anti_heal, "红霸符单独不应有重伤冲突");
    assert!(!armor, "轻语单独不应有破甲冲突");
}

#[test]
fn diverse_coverage_reduces_penalty() {
    let scorer = ItemConflictScorer::new(&make_conflict_groups());
    let warnings = scorer.detect_conflicts(&ids(&["2037", "2032"]));
    let armor_warn = warnings.iter().find(|w| w.group_id == "armor_shred").unwrap();
    assert_eq!(armor_warn.penalty_score, -45);
}

#[test]
fn are_conflicting_detection() {
    let scorer = ItemConflictScorer::new(&make_conflict_groups());
    assert_eq!(scorer.are_conflicting("2009", "2029"), Some("anti_heal".into()));
    assert_eq!(scorer.are_conflicting("2009", "2037"), None);
}

#[test]
fn stacking_weights() {
    let scorer = ItemConflictScorer::new(&make_conflict_groups());
    assert_eq!(scorer.stacking_weight("anti_heal", 0), 100);
    assert_eq!(scorer.stacking_weight("anti_heal", 1), 30);
    assert_eq!(scorer.stacking_weight("anti_heal", 2), 10);
}

#[test]
fn stacking_policy_values_drive_warning_penalty() {
    let groups = make_conflict_groups();
    let policies = StackingPolicies {
        version: "test".into(),
        policies: vec![(
            "full_stack".into(),
            StackingPolicyDef { description: "测试完全叠加".into(), value_per_source: vec![100, 100, 100] },
        )],
        default_policy: "full_stack".into(),
        environment_modifiers: vec![],
    };
    let scorer = ItemConflictScorer::new_with_stacking_policies(&groups, &policies);
    let warnings = scorer.detect_conflicts(&ids(&["2009", "2029"]));
    let anti_heal = warnings.iter().find(|w| w.group_id == "anti_heal").unwrap();
    assert_eq!(anti_heal.penalty_score, 0);
}

#[test]
fn environment_modifier_config_values_drive_penalty_relief() {
    let groups = make_conflict_groups();
    let policies = StackingPolicies {
        version: "test".into(),
        policies: vec![(
            "group_equivalent".into(),
            StackingPolicyDef { description: "测试等同冲突组策略".into(), value_per_source: vec![100, 30, 10] },
        )],
        default_policy: "group_equivalent".into(),
        environment_modifiers: vec![(
            "opponent_heal_heavy".into(),
            EnvironmentModifier {
                description: "测试回复环境".into(),
                effect: String::new(),
                groups: vec!["anti_heal".into()],
                penalty_relief: 30,
            },
        )],
    };
    let scorer = ItemConflictScorer::new_with_stacking_policies(&groups, &policies);
    let adjusted = scorer.detect_conflicts_with_environment(
        &ids(&["2009", "2029"]),
        &ConflictEnvironment { opponent_heal_heavy: true, ..Default::default() },
    );
    let anti_heal = adjusted.iter().find(|w| w.group_id == "anti_heal").unwrap();
    assert_eq!(anti_heal.penalty_score, -12);
}

#[test]
fn environment_reduces_penalty_for_relevant_matchups() {
    let scorer = ItemConflictScorer::new(&make_conflict_groups());
    let normal = scorer.detect_conflicts(&ids(&["2009", "2029"]));
    let heal_heavy = scorer.detect_conflicts_with_environment(
        &ids(&["2009", "2029"]),
        &ConflictEnvironment { opponent_heal_heavy: true, ..Default::default() },
    );
    let normal_penalty = normal.iter().find(|w| w.group_id == "anti_heal").unwrap().penalty_score;
    let adjusted_penalty = heal_heavy.iter().find(|w| w.group_id == "anti_heal").unwrap().penalty_score;
    assert!(adjusted_penalty > normal_penalty);
}

#[test]
fn effect_sources_from_multiple_types_join_conflict_scoring() {
    let scorer = ItemConflictScorer::new(&make_conflict_groups());
    let sources = vec![
        EffectSource {
            source_type: "item".into(),
            source_id: "2029".into(),
            source_name: "日炎斗篷".into(),
            group_id: "anti_heal".into(),
            coverage: CoverageType::AoeAura,
            weight: 100,
        },
        EffectSource {
            source_type: "trait".into(),
            source_id: "void".into(),
            source_name: "虚空".into(),
            group_id: "anti_heal".into(),
            coverage: CoverageType::Unknown,
            weight: 80,
        },
    ];
    let report = scorer.detect_source_conflicts(&sources, &ConflictEnvironment::default());
    assert!(report.total_penalty < 0);
    assert!(report.covered_groups.contains(&"anti_heal".into()));
    assert!(report.item_conflicts.iter().any(|(id, _)| id == "2029"));
    assert!(report.coverage_explanation.contains("trait:虚空"));
}

#[test]
fn warning_explains_sources_and_diverse_coverage() {
    let scorer = ItemConflictScorer::new(&make_conflict_groups());
    let warnings = scorer.detect_conflicts(&ids(&["2009", "2029"]));
    assert_eq!(warnings.len(), 1);
    let w = &warnings[0];
    assert_eq!(w.existing_sources, 1);
    assert_eq!(w.remaining_value, "覆盖方式不同(2种)，可互补");
    assert_eq!(
        w.explanation,
        "冲突组[重伤]: 已有 1 个重伤来源，重复收益下降42%，来源: item:红霸符、item:日炎斗篷，覆盖方式不同"
    );
}

#[test]
fn same_coverage_keeps_full_penalty_and_warnings_are_sorted() {
    let mut groups = make_conflict_groups();
    groups.groups[1].1.conflicts[1].coverage = CoverageType::SingleTargetSpell;
    let scorer = ItemConflictScorer::new(&groups);
    let warnings = scorer.detect_conflicts(&ids(&["2037", "2032", "2009", "2029"]));
    assert_eq!(warnings.len(), 2);
    assert_eq!(warnings[0].group_id, "anti_heal");
    assert_eq!(warnings[1].group_id, "armor_shred");
    assert_eq!(warnings[1].penalty_score, -75);
    assert_eq!(warnings[1].remaining_value, "重复效果边际收益下降");
}

#[test]
fn builtin_relief_for_armor_shred_with_ad_team() {
    let mut groups = make_conflict_groups();
    groups.groups[1].1.conflicts[1].coverage = CoverageType::SingleTargetSpell;
    let scorer = ItemConflictScorer::new(&groups);
    let w = scorer.detect_conflicts_with_environment(
        &ids(&["2037", "2032"]),
        &ConflictEnvironment { own_ad_heavy: true, ..Default::default() },
    );
    assert_eq!(w[0].penalty_score, -50);
}

#[test]
fn default_policy_missing_falls_back_to_builtin_values() {
    let policies = StackingPolicies {
        version: "t".into(),
        policies: vec![],
        default_policy: "none".into(),
        environment_modifiers: vec![],
    };
    let scorer = ItemConflictScorer::new_with_stacking_policies(&make_conflict_groups(), &policies);
    assert_eq!(scorer.default_stacking_weight(0), 100);
    assert_eq!(scorer.default_stacking_weight(1), 40);
    assert_eq!(scorer.default_stacking_weight(7), 10);
    let plain = ItemConflictScorer::new(&make_conflict_groups());
    assert_eq!(plain.default_stacking_weight(1), 100);
    assert_eq!(plain.stacking_weight("unknown", 1), 100);
}

#[test]
fn conflict_groups_of_an_item() {
    let scorer = ItemConflictScorer::new(&make_conflict_groups());
    let groups = scorer.get_conflict_groups("2037");
    assert_eq!(groups.len(), 1);
    assert_eq!(groups[0].label, "破甲");
    assert!(scorer.get_conflict_groups("9999").is_empty());
}

#[test]
fn source_report_lists_uncovered_groups_and_summary() {
    let scorer = ItemConflictScorer::new(&make_conflict_groups());
    let sources = vec![EffectSource {
        source_type: "item".into(),
        source_id: "2009".into(),
        source_name: "红霸符".into(),
        group_id: "anti_heal".into(),
        coverage: CoverageType::SingleTarget,
        weight: 100,
    }];
    let report = scorer.detect_source_conflicts(&sources, &ConflictEnvironment::default());
    assert_eq!(report.covered_groups, vec!["anti_heal".to_string()]);
    assert_eq!(report.uncovered_groups, vec!["armor_shred".to_string()]);
    assert_eq!(report.total_penalty, 0);
    assert!(report.item_conflicts.is_empty());
    assert_eq!(report.coverage_explanation, "来源: item:红霸符 | 无效果冲突");
}

#[test]
fn team_conflict_report_generates_coverage() {
    let scorer = ItemConflictScorer::new(&make_conflict_groups());
    let report = scorer.detect_team_conflicts(&["2009".into(), "2037".into()], &[]);
    assert!(report.covered_groups.contains(&"anti_heal".into()));
    assert!(report.covered_groups.contains(&"armor_shred".into()));
    assert_eq!(report.total_penalty, 0);
}

#[test]
fn profile_conflict_group_joins_team_report() {
    let scorer = ItemConflictScorer::new(&make_conflict_groups());
    let profile = hexsight::knowledge_types::ItemValueProfile {
        item_id: "3001".into(),
        name: "自定义重伤".into(),
        item_type: "成型装备".into(),
        stats: vec![],
        effect_tags: vec![],
        best_for_profiles: vec![],
        bad_for_profiles: vec![],
        replacement_group: String::new(),
        conflict_group: "anti_heal".into(),
        stage_bias: String::new(),
        tier: None,
        damage_type_fit: vec![],
    };
    let report = scorer.detect_team_conflicts(&["2009".into(), "3001".into()], &[&profile]);
    assert!(report.total_penalty < 0);
    assert!(report.coverage_explanation.contains("item:自定义重伤"));
}

#[test]
fn stacking_policy_config_loads_snake_case_and_drives_default_weight() {
    let groups = make_conflict_groups();
    let policies = StackingPolicies {
        version: "S18.1".into(),
        policies: vec![(
            "diminishing_moderate".into(),
            StackingPolicyDef { description: "适度递减".into(), value_per_source: vec![100, 40, 15] },
        )],
        default_policy: "diminishing_moderate".into(),
        environment_modifiers: vec![(
            "own_ap_heavy".into(),
            EnvironmentModifier {
                description: "己方法系".into(),
                effect: String::new(),
                groups: vec!["mr_shred".into()],
                penalty_relief: 10,
            },
        )],
    };
    let scorer = ItemConflictScorer::new_with_stacking_policies(&groups, &policies);
    assert_eq!(policies.default_policy, "diminishing_moderate");
    assert_eq!(scorer.default_stacking_weight(1), 40);
    assert_eq!(scorer.default_stacking_weight(7), 15);
    assert!(policies.environment_modifiers.iter().any(|(k, _)| k == "own_ap_heavy"));
    let plain = ItemConflictScorer::new(&groups);
    assert_eq!(plain.default_stacking_weight(1), 100);
}

#[test]
fn large_stacking_values_and_reliefs_are_applied_as_configured() {
    let groups = make_conflict_groups();
    let policies = StackingPolicies {
        version: "test".into(),
        policies: vec![(
            "steep".into(),
            StackingPolicyDef { description: "测试大数值".into(), value_per_source: vec![100, -499_900] },
        )],
        default_policy: "steep".into(),
        environment_modifiers: vec![(
            "opponent_heal_heavy".into(),
            EnvironmentModifier {
                description: String::new(),
                effect: String::new(),
                groups: vec!["anti_heal".into()],
                penalty_relief: 200_000,
            },
        )],
    };
    let scorer = ItemConflictScorer::new_with_stacking_policies(&groups, &policies);
    let calm = scorer.detect_conflicts(&ids(&["2037", "2032"]));
    assert_eq!(calm[0].penalty_score, -300_000);
    let env = ConflictEnvironment {
        opponent_heal_heavy: true,
        opponent_frontline_thick: false,
        opponent_burst_heavy: false,
        own_ap_heavy: false,
        own_ad_heavy: false,
    };
    let heal = scorer.detect_conflicts_with_environment(&ids(&["2009", "2029"]), &env);
    assert_eq!(heal[0].penalty_score, -100_000);
    assert_eq!(scorer.default_stacking_weight(1), -499_900);
    assert_eq!(scorer.default_stacking_weight(7), -499_900);
}
