use hexsight::bench_transition_scorer::BenchTransitionScorer;
use hexsight::champion_item_fit::ItemSynthesisIndex;
use hexsight::holder_scorer::{
    HolderAction, HolderRole, HolderRules, HolderScorer, HolderScoringContext, HolderUnit, HolderUnitSource,
    WorkhorseOverride, WorkhorseOverrides,
};
use hexsight::knowledge_types::{ChampionCapability, ChampionRole, ItemPreferences, ItemStat, ItemValueProfile, PowerSpike};
use hexsight::rule_types::{LineupProfile, PlaystyleTag};

fn champion(
    hero_id: &str,
    name: &str,
    cost: i32,
    role: ChampionRole,
    damage_profile: &str,
    position_role: &str,
    scaling_stats: Vec<&str>,
) -> ChampionCapability {
    ChampionCapability {
        hero_id: hero_id.into(),
        name: name.into(),
        cost,
        traits: vec![],
        role,
        damage_profile: damage_profile.into(),
        damage_pattern: vec!["sustained".into()],
        cast_pattern: "attack_based".into(),
        scaling_stats: scaling_stats.into_iter().map(String::from).collect(),
        position_role: position_role.into(),
        item_strictness: "medium".into(),
        power_spikes: vec![PowerSpike { spike_type: "star".into(), value: 2, impact: 20 }],
        risk_profile: vec![],
        item_preferences: ItemPreferences::default(),
        confidence_percent: 90,
        needs_override: false,
    }
}

fn item(item_id: &str, name: &str, damage_fit: Vec<&str>, stats: Vec<&str>, tags: Vec<&str>) -> ItemValueProfile {
    ItemValueProfile {
        item_id: item_id.into(),
        name: name.into(),
        item_type: "成型装备".into(),
        stats: stats.into_iter().map(|name| ItemStat { name: name.into(), value: 30 }).collect(),
        effect_tags: tags.into_iter().map(String::from).collect(),
        best_for_profiles: damage_fit.iter().map(|v| v.to_string()).collect(),
        bad_for_profiles: vec![],
        replacement_group: String::new(),
        conflict_group: String::new(),
        stage_bias: "early_mid".into(),
        tier: None,
        damage_type_fit: damage_fit.into_iter().map(String::from).collect(),
    }
}

fn profile(carry_ids: Vec<&str>, tank_ids: Vec<&str>, core_items: Vec<&str>, tank_items: Vec<&str>) -> LineupProfile {
    LineupProfile {
        lineup_id: "lineup_1".into(),
        name: "测试阵容".into(),
        base_tier: 90,
        playstyle_tags: vec![PlaystyleTag::Tempo],
        final_hero_ids: carry_ids.iter().chain(tank_ids.iter()).map(|id| id.to_string()).collect(),
        carry_hero_ids: carry_ids.into_iter().map(String::from).collect(),
        tank_hero_ids: tank_ids.into_iter().map(String::from).collect(),
        core_equipment_ids: core_items.into_iter().map(String::from).collect(),
        tank_equipment_ids: tank_items.into_iter().map(String::from).collect(),
        equipment_order_ids: vec![],
        recommended_hex_ids: vec![],
        replacement_hex_ids: vec![],
        early_hero_ids: vec![],
        mid_hero_ids: vec![],
        trait_targets: vec![],
        strategy_texts: vec![],
        mode_specific: hexsight::json::JsonValue::Null,
        carry_costs: vec![4],
        category: None,
    }
}

fn ad_item() -> ItemValueProfile {
    item("ad_item", "物理成装", vec!["ad"], vec!["ad", "attack_speed"], vec![])
}

fn late_carry_lineup() -> LineupProfile {
    profile(vec!["late_carry"], vec![], vec!["ad_item"], vec![])
}

#[test]
fn recommends_two_star_ad_workhorse_as_temporary_carry() {
    let champions = vec![
        champion("early_ad", "二星打工射手", 1, ChampionRole::SecondaryCarry, "ad", "backline", vec!["attack_damage", "attack_speed"]),
        champion("weak_utility", "一星挂件", 1, ChampionRole::Utility, "utility", "backline", vec![]),
        champion("late_carry", "最终主C", 4, ChampionRole::PrimaryCarry, "ad", "backline", vec!["attack_damage", "attack_speed"]),
    ];
    let items = vec![ad_item()];
    let context = HolderScoringContext {
        board_units: vec![
            HolderUnit::new("early_ad", 2, HolderUnitSource::Board),
            HolderUnit::new("weak_utility", 1, HolderUnitSource::Board),
        ],
        bench_units: vec![],
        completed_item_ids: vec!["ad_item".into()],
        component_item_ids: vec![],
        active_trait_ids: vec![],
        target_lineups: vec![late_carry_lineup()],
    };

    let plan = HolderScorer::score(&context, &champions, &items);

    let best = plan.best.expect("应给出最佳临时承载者");
    assert_eq!(best.temporary_holder_id, "early_ad");
    assert_eq!(best.final_holder_id, Some("late_carry".into()));
    assert_eq!(best.holder_role, HolderRole::Carry);
    assert_eq!(best.action, HolderAction::EquipNow);
    assert!(best.sell_cost > 0);
    assert!(plan.summary.contains("给二星打工射手"));
}

#[test]
fn recommends_frontline_tank_as_temporary_tank_holder() {
    let champions = vec![
        champion("front_tank", "二星前排", 2, ChampionRole::OffTank, "tank", "frontline", vec!["health"]),
        champion("back_carry", "后排输出", 2, ChampionRole::SecondaryCarry, "ad", "backline", vec!["attack_damage"]),
        champion("late_tank", "最终主坦", 4, ChampionRole::MainTank, "tank", "frontline", vec!["health"]),
    ];
    let items = vec![item("tank_item", "肉装", vec!["tank"], vec!["hp", "armor"], vec!["shield_survival"])];
    let context = HolderScoringContext {
        board_units: vec![
            HolderUnit::new("front_tank", 2, HolderUnitSource::Board),
            HolderUnit::new("back_carry", 2, HolderUnitSource::Board),
        ],
        bench_units: vec![],
        completed_item_ids: vec!["tank_item".into()],
        component_item_ids: vec![],
        active_trait_ids: vec![],
        target_lineups: vec![profile(vec![], vec!["late_tank"], vec![], vec!["tank_item"])],
    };

    let plan = HolderScorer::score(&context, &champions, &items);

    let best = plan.best.expect("应给出最佳临时承载者");
    assert_eq!(best.temporary_holder_id, "front_tank");
    assert_eq!(best.final_holder_id, Some("late_tank".into()));
    assert_eq!(best.holder_role, HolderRole::Tank);
    assert_eq!(best.action, HolderAction::EquipNow);
}

#[test]
fn waits_for_target_carry_when_target_is_available_and_current_holder_is_one_star() {
    let champions = vec![
        champion("early_ad", "一星临时输出", 1, ChampionRole::SecondaryCarry, "ad", "backline", vec!["attack_damage"]),
        champion("late_carry", "目标主C", 4, ChampionRole::PrimaryCarry, "ad", "backline", vec!["attack_damage", "attack_speed"]),
    ];
    let items = vec![ad_item()];
    let context = HolderScoringContext {
        board_units: vec![HolderUnit::new("early_ad", 1, HolderUnitSource::Board)],
        bench_units: vec![HolderUnit::new("late_carry", 1, HolderUnitSource::Bench)],
        completed_item_ids: vec!["ad_item".into()],
        component_item_ids: vec![],
        active_trait_ids: vec![],
        target_lineups: vec![late_carry_lineup()],
    };

    let plan = HolderScorer::score(&context, &champions, &items);

    let best = plan.best.expect("应给出目标主C等待建议");
    assert_eq!(best.final_holder_id, Some("late_carry".into()));
    assert_eq!(best.action, HolderAction::WaitForTarget);
    assert!(best.reasons.iter().any(|reason| reason.contains("目标主C已在备战席")));
}

#[test]
fn bench_transition_scorer_outputs_final_holder_and_sell_cost() {
    let current = HolderUnit::new("early_ad", 2, HolderUnitSource::Board);
    let target = HolderUnit::new("late_carry", 1, HolderUnitSource::Bench);
    let champions = vec![
        champion("early_ad", "二星打工射手", 1, ChampionRole::SecondaryCarry, "ad", "backline", vec!["attack_damage"]),
        champion("late_carry", "目标主C", 4, ChampionRole::PrimaryCarry, "ad", "backline", vec!["attack_damage"]),
    ];
    let decision = BenchTransitionScorer::score(
        "ad_item",
        &[current],
        &[target],
        &[late_carry_lineup()],
        &champions,
        HolderRole::Carry,
    )
    .expect("应给出转移对象");

    assert_eq!(decision.final_holder_id, "late_carry");
    assert_eq!(decision.current_sell_cost, 3);
    assert!(decision.should_wait_for_target);
}

#[test]
fn returns_backup_holders_for_same_completed_item() {
    let champions = vec![
        champion("best_ad", "最佳二星射手", 1, ChampionRole::SecondaryCarry, "ad", "backline", vec!["attack_damage", "attack_speed"]),
        champion("backup_ad", "备用射手", 1, ChampionRole::SecondaryCarry, "ad", "backline", vec!["attack_damage"]),
        champion("late_carry", "最终主C", 4, ChampionRole::PrimaryCarry, "ad", "backline", vec!["attack_damage", "attack_speed"]),
    ];
    let items = vec![ad_item()];
    let context = HolderScoringContext {
        board_units: vec![
            HolderUnit::new("best_ad", 2, HolderUnitSource::Board),
            HolderUnit::new("backup_ad", 2, HolderUnitSource::Board),
        ],
        bench_units: vec![],
        completed_item_ids: vec!["ad_item".into()],
        component_item_ids: vec![],
        active_trait_ids: vec![],
        target_lineups: vec![late_carry_lineup()],
    };

    let plan = HolderScorer::score(&context, &champions, &items);

    assert_eq!(plan.best.unwrap().temporary_holder_id, "best_ad");
    assert!(
        plan.alternatives.iter().any(|candidate| candidate.temporary_holder_id == "backup_ad"),
        "单件装备也应输出备用承载者"
    );
}

#[test]
fn component_bench_can_build_combat_item_and_recommend_holder() {
    let champions = vec![
        champion("early_ad", "二星打工射手", 1, ChampionRole::SecondaryCarry, "ad", "backline", vec!["attack_damage", "attack_speed"]),
        champion("late_carry", "最终主C", 4, ChampionRole::PrimaryCarry, "ad", "backline", vec!["attack_damage", "attack_speed"]),
    ];
    let items = vec![ad_item()];
    let synthesis = ItemSynthesisIndex::from_routes(vec![(
        "ad_item".to_string(),
        vec!["bf_sword".to_string(), "bow".to_string()],
    )]);
    let context = HolderScoringContext {
        board_units: vec![HolderUnit::new("early_ad", 2, HolderUnitSource::Board)],
        bench_units: vec![],
        completed_item_ids: vec![],
        component_item_ids: vec!["bf_sword".into(), "bow".into()],
        active_trait_ids: vec![],
        target_lineups: vec![late_carry_lineup()],
    };

    let plan = HolderScorer::score_with_synthesis_index(&context, &champions, &items, &synthesis);

    let best = plan.best.expect("散件可合成战力装时应输出承载者");
    assert_eq!(best.item_id, "ad_item");
    assert_eq!(best.temporary_holder_id, "early_ad");
    assert!(best.reasons.iter().any(|reason| reason.contains("装备席散件可合成")));
    assert!(plan.summary.contains("合物理成装"));
}

#[test]
fn recommends_two_star_bench_workhorse_as_temporary_holder() {
    let champions = vec![
        champion("board_filler", "场上一星挂件", 1, ChampionRole::Utility, "utility", "backline", vec![]),
        champion("bench_ad", "备战席二星射手", 1, ChampionRole::SecondaryCarry, "ad", "backline", vec!["attack_damage", "attack_speed"]),
        champion("late_carry", "最终主C", 4, ChampionRole::PrimaryCarry, "ad", "backline", vec!["attack_damage", "attack_speed"]),
    ];
    let items = vec![ad_item()];
    let context = HolderScoringContext {
        board_units: vec![HolderUnit::new("board_filler", 1, HolderUnitSource::Board)],
        bench_units: vec![HolderUnit::new("bench_ad", 2, HolderUnitSource::Bench)],
        completed_item_ids: vec!["ad_item".into()],
        component_item_ids: vec![],
        active_trait_ids: vec![],
        target_lineups: vec![late_carry_lineup()],
    };

    let plan = HolderScorer::score(&context, &champions, &items);

    let best = plan.best.expect("备战席强打工牌应参与承载者候选");
    assert_eq!(best.temporary_holder_id, "bench_ad");
    assert!(best.reasons.iter().any(|reason| reason.contains("备战席可上场承载")));
}

#[test]
fn filters_full_item_holder_from_recommendations() {
    let champions = vec![
        champion("full_ad", "满装射手", 1, ChampionRole::SecondaryCarry, "ad", "backline", vec!["attack_damage", "attack_speed"]),
        champion("open_ad", "空装备射手", 1, ChampionRole::SecondaryCarry, "ad", "backline", vec!["attack_damage"]),
        champion("late_carry", "最终主C", 4, ChampionRole::PrimaryCarry, "ad", "backline", vec!["attack_damage"]),
    ];
    let mut full = HolderUnit::new("full_ad", 2, HolderUnitSource::Board);
    full.item_ids = vec!["i1".into(), "i2".into(), "i3".into()];
    let context = HolderScoringContext {
        board_units: vec![full, HolderUnit::new("open_ad", 2, HolderUnitSource::Board)],
        bench_units: vec![],
        completed_item_ids: vec!["ad_item".into()],
        component_item_ids: vec![],
        active_trait_ids: vec![],
        target_lineups: vec![late_carry_lineup()],
    };

    let plan = HolderScorer::score(&context, &champions, &[ad_item()]);

    let all_ids = plan
        .best
        .iter()
        .chain(plan.alternatives.iter())
        .map(|candidate| candidate.temporary_holder_id.as_str())
        .collect::<Vec<_>>();
    assert!(!all_ids.contains(&"full_ad"), "满 3 件棋子不应被推荐继续承载");
    assert!(all_ids.contains(&"open_ad"));
}

#[test]
fn sell_cost_uses_actual_recommended_holder() {
    let champions = vec![
        champion("expensive_bad", "昂贵前排", 5, ChampionRole::MainTank, "tank", "frontline", vec!["health"]),
        champion("cheap_good", "便宜射手", 1, ChampionRole::SecondaryCarry, "ad", "backline", vec!["attack_damage", "attack_speed"]),
        champion("late_carry", "最终主C", 4, ChampionRole::PrimaryCarry, "ad", "backline", vec!["attack_damage"]),
    ];
    let context = HolderScoringContext {
        board_units: vec![
            HolderUnit::new("expensive_bad", 2, HolderUnitSource::Board),
            HolderUnit::new("cheap_good", 2, HolderUnitSource::Board),
        ],
        bench_units: vec![],
        completed_item_ids: vec!["ad_item".into()],
        component_item_ids: vec![],
        active_trait_ids: vec![],
        target_lineups: vec![late_carry_lineup()],
    };

    let plan = HolderScorer::score(&context, &champions, &[ad_item()]);

    let best = plan.best.expect("应推荐实际适配的便宜射手");
    assert_eq!(best.temporary_holder_id, "cheap_good");
    assert_eq!(best.sell_cost, 3);
}

#[test]
fn score_prefers_two_star_board_carry() {
    let early = ChampionCapability {
        damage_pattern: vec![],
        scaling_stats: vec!["attack_damage".into()],
        confidence_percent: 100,
        ..champion("early", "early", 1, ChampionRole::SecondaryCarry, "ad", "backline", vec![])
    };
    let late = ChampionCapability {
        damage_pattern: vec![],
        scaling_stats: vec!["attack_damage".into()],
        confidence_percent: 100,
        ..champion("late", "late", 1, ChampionRole::PrimaryCarry, "ad", "backline", vec![])
    };
    let mut lineup = profile(vec!["late"], vec![], vec!["ad_item"], vec![]);
    lineup.lineup_id = "p".into();
    lineup.name = "p".into();
    lineup.base_tier = 100;
    lineup.final_hero_ids = vec!["late".into()];
    let ad = ItemValueProfile {
        name: "物理装".into(),
        stats: vec![ItemStat { name: "ad".into(), value: 30 }],
        ..ad_item()
    };
    let context = HolderScoringContext {
        board_units: vec![HolderUnit::new("early", 2, HolderUnitSource::Board)],
        bench_units: vec![],
        completed_item_ids: vec!["ad_item".into()],
        component_item_ids: vec![],
        active_trait_ids: vec![],
        target_lineups: vec![lineup],
    };

    let plan = HolderScorer::score(&context, &[early, late], &[ad]);

    assert_eq!(plan.best.unwrap().temporary_holder_id, "early");
}

#[test]
fn two_star_one_cost_sell_cost_is_three() {
    let carry = |id: &str, cost: i32| ChampionCapability {
        damage_pattern: vec![],
        scaling_stats: vec!["attack_damage".into()],
        confidence_percent: 100,
        ..champion(id, id, cost, ChampionRole::PrimaryCarry, "ad", "backline", vec![])
    };
    let champions = vec![carry("early", 1), carry("late", 4)];
    let current = HolderUnit::new("early", 2, HolderUnitSource::Board);
    let target = HolderUnit::new("late", 1, HolderUnitSource::Bench);
    let mut lineup = profile(vec!["late"], vec![], vec!["item"], vec![]);
    lineup.final_hero_ids = vec!["late".into()];
    let decision =
        BenchTransitionScorer::score("item", &[current], &[target], &[lineup], &champions, HolderRole::Carry).unwrap();

    assert_eq!(decision.current_sell_cost, 3);
    assert!(decision.should_wait_for_target);
}

#[test]
fn override_bonus_and_notes_apply_to_listed_roles() {
    let champions = vec![
        champion("a", "甲", 1, ChampionRole::SecondaryCarry, "ad", "backline", vec!["attack_damage"]),
        champion("b", "乙", 1, ChampionRole::SecondaryCarry, "ad", "backline", vec!["attack_damage"]),
    ];
    let context = HolderScoringContext {
        board_units: vec![HolderUnit::new("a", 1, HolderUnitSource::Board), HolderUnit::new("b", 1, HolderUnitSource::Board)],
        bench_units: vec![],
        completed_item_ids: vec!["ad_item".into()],
        component_item_ids: vec![],
        active_trait_ids: vec![],
        target_lineups: vec![],
    };
    let rules = HolderRules::default();
    let overrides = WorkhorseOverrides {
        version: "v".into(),
        overrides: vec![(
            "b".to_string(),
            WorkhorseOverride { bonus: 20, roles: vec![HolderRole::Carry], notes: "强力打工".into() },
        )],
    };
    let plain = HolderScorer::score_with_rules(&context, &champions, &[ad_item()], &rules, &WorkhorseOverrides { version: "v".into(), overrides: vec![] });
    let boosted = HolderScorer::score_with_rules(&context, &champions, &[ad_item()], &rules, &overrides);
    let plain_best = plain.best.unwrap();
    assert_eq!(plain_best.temporary_holder_id, "a");
    assert_eq!(plain.alternatives.len(), 1);
    let best = boosted.best.unwrap();
    assert_eq!(best.temporary_holder_id, "b");
    assert_eq!(best.score, (plain_best.score + 20).min(140));
    assert!(best.reasons.iter().any(|r| r == "强力打工"));
    assert_eq!(best.final_holder_id, None);
    assert_eq!(boosted.summary, "合物理成装，给乙");
}

#[test]
fn no_known_item_gives_empty_plan() {
    let context = HolderScoringContext {
        board_units: vec![HolderUnit::new("a", 2, HolderUnitSource::Board)],
        bench_units: vec![],
        completed_item_ids: vec!["missing".into()],
        component_item_ids: vec![],
        active_trait_ids: vec![],
        target_lineups: vec![],
    };
    let plan = HolderScorer::score(&context, &[], &[ad_item()]);
    assert!(plan.best.is_none());
    assert!(plan.alternatives.is_empty());
    assert_eq!(plan.summary, "暂无可用承载者");
}

#[test]
fn plan_orders_advice_and_waits_cost_nothing() {
    let champions = vec![
        champion("early_ad", "一星临时输出", 1, ChampionRole::SecondaryCarry, "ad", "backline", vec!["attack_damage"]),
        champion("other_ad", "二星射手", 2, ChampionRole::SecondaryCarry, "ad", "backline", vec!["attack_damage"]),
        champion("late_carry", "目标主C", 4, ChampionRole::PrimaryCarry, "ad", "backline", vec!["attack_damage", "attack_speed"]),
    ];
    let context = HolderScoringContext {
        board_units: vec![
            HolderUnit::new("early_ad", 1, HolderUnitSource::Board),
            HolderUnit::new("other_ad", 2, HolderUnitSource::Board),
        ],
        bench_units: vec![HolderUnit::new("late_carry", 1, HolderUnitSource::Bench)],
        completed_item_ids: vec!["ad_item".into()],
        component_item_ids: vec![],
        active_trait_ids: vec![],
        target_lineups: vec![late_carry_lineup()],
    };
    let plan = HolderScorer::score(&context, &champions, &[ad_item()]);
    let best = plan.best.clone().unwrap();
    assert!(plan.alternatives.len() <= 3);
    for alt in plan.alternatives.iter().chain(std::iter::once(&best)) {
        assert!(alt.score <= best.score && alt.score >= 0 && alt.score <= 140);
        if alt.action == HolderAction::WaitForTarget {
            assert_eq!(alt.sell_cost, 0);
            assert_eq!(alt.final_holder_id.as_deref(), Some(alt.temporary_holder_id.as_str()));
        }
    }
    assert!(plan
        .alternatives
        .iter()
        .chain(std::iter::once(&best))
        .any(|a| a.action == HolderAction::WaitForTarget && a.temporary_holder_id == "late_carry"));
}
