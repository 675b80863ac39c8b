use hexsight::item_fit_scorer::ItemFitScorer;
use hexsight::json::JsonValue;
use hexsight::rule_types::{ItemAction, ItemFitResult, LineupProfile, PlaystyleTag};

fn profile(id: &str, core: &[&str], order: &[&str], tags: Vec<PlaystyleTag>) -> LineupProfile {
    LineupProfile {
        lineup_id: id.into(),
        name: id.into(),
        base_tier: 80,
        playstyle_tags: tags,
        final_hero_ids: vec![],
        carry_hero_ids: vec![],
        tank_hero_ids: vec![],
        core_equipment_ids: core.iter().map(|s| s.to_string()).collect(),
        tank_equipment_ids: vec![],
        equipment_order_ids: order.iter().map(|s| s.to_string()).collect(),
        recommended_hex_ids: vec![],
        replacement_hex_ids: vec![],
        early_hero_ids: vec![],
        mid_hero_ids: vec![],
        trait_targets: vec![],
        strategy_texts: vec![],
        mode_specific: JsonValue::Null,
        carry_costs: vec![],
        category: None,
    }
}

fn strings(v: &[&str]) -> Vec<String> {
    v.iter().map(|s| s.to_string()).collect()
}

#[test]
fn item_fit_ranks_lineups_by_buildable_core_items() {
    let profiles = vec![
        profile("none", &["1002", "1007"], &["9"], vec![]),
        profile("ap", &["1003", "1004", "1005"], &[], vec![PlaystyleTag::ItemFlexible]),
        profile("ad", &["1001", "1006", "1008", "1019", "1021"], &[], vec![]),
    ];
    let results = ItemFitScorer::score(&profiles, &strings(&["1003"]), &strings(&["1004", "1001", "9"]));
    let ids: Vec<&str> = results.iter().map(|r| r.best_fit_lineup_ids[0].as_str()).collect();
    assert_eq!(ids, vec!["ap", "ad", "none"]);
    assert_eq!(results[0].can_build_core_count, 2);
    assert_eq!(results[0].recommended_action, ItemAction::BuildCombatNow);
    assert_eq!(results[0].reasons, vec!["核心装备匹配 2/3".to_string()]);
    assert_eq!(results[0].flexibility, 80);
    assert_eq!(results[0].direction, "AP");
    assert_eq!(results[1].recommended_action, ItemAction::HoldComponents);
    assert_eq!(results[1].reasons, vec!["当前装备不匹配此阵容核心装".to_string()]);
    assert_eq!(results[1].direction, "AD");
    assert_eq!(results[1].core_component_count, 5);
    assert_eq!(results[2].recommended_action, ItemAction::BuildGeneric);
    assert_eq!(results[2].reasons, vec!["装备优先级部分匹配 1 件".to_string()]);
    assert_eq!(results[2].direction, "坦");
    assert_eq!(results[2].flexibility, 40);
}

#[test]
fn item_fit_waits_on_partial_core() {
    let profiles = vec![profile("x", &["1001", "1002", "1003"], &[], vec![])];
    let results = ItemFitScorer::score(&profiles, &strings(&["1002"]), &[]);
    assert_eq!(results[0].recommended_action, ItemAction::WaitCore);
    assert_eq!(results[0].reasons, vec!["核心装备部分匹配 1/3，可继续观察".to_string()]);
    assert_eq!(results[0].direction, "混合");
    let empty = vec![profile("e", &[], &[], vec![])];
    assert_eq!(ItemFitScorer::score(&empty, &[], &[])[0].recommended_action, ItemAction::HoldComponents);
}

fn result(direction: &str) -> ItemFitResult {
    ItemFitResult {
        best_fit_lineup_ids: vec![],
        direction: direction.into(),
        core_component_count: 0,
        can_build_core_count: 0,
        flexibility: 40,
        recommended_action: ItemAction::HoldComponents,
        reasons: vec![],
    }
}

#[test]
fn best_direction_counts_first_five() {
    let rs = vec![result("AP"), result("AD"), result("AP"), result("坦"), result("混合"), result("AD"), result("AD")];
    assert_eq!(ItemFitScorer::best_direction(&rs), "AP");
    assert_eq!(ItemFitScorer::best_direction(&[result("AD"), result("AP")]), "混合");
    assert_eq!(ItemFitScorer::best_direction(&[result("坦")]), "坦");
    assert_eq!(ItemFitScorer::best_direction(&[]), "混合");
    assert_eq!(ItemFitScorer::classify_direction(&strings(&["1001", "abc", "1009", "1006"])), "AD");
}
