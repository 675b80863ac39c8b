use hexsight::environment_modifier::{EnvironmentModifierScorer, EnvironmentWeights};
use hexsight::item_conflict_scorer::ConflictEnvironment;
use hexsight::knowledge_types::ItemValueProfile;

fn item(tags: Vec<&str>, conflict_group: &str) -> ItemValueProfile {
    ItemValueProfile {
        item_id: "i".into(),
        name: "装备".into(),
        item_type: "成型装备".into(),
        stats: vec![],
        effect_tags: tags.into_iter().map(String::from).collect(),
        best_for_profiles: vec![],
        bad_for_profiles: vec![],
        replacement_group: String::new(),
        conflict_group: conflict_group.into(),
        stage_bias: String::new(),
        tier: None,
        damage_type_fit: vec![],
    }
}

fn env(heal: bool, thick: bool, burst: bool, ap: bool, ad: bool) -> ConflictEnvironment {
    ConflictEnvironment {
        opponent_heal_heavy: heal,
        opponent_frontline_thick: thick,
        opponent_burst_heavy: burst,
        own_ap_heavy: ap,
        own_ad_heavy: ad,
    }
}

#[test]
fn anti_heal_against_healing_team() {
    let scorer = EnvironmentModifierScorer::new(EnvironmentWeights::default());
    let m = scorer.score_item(&item(vec![], "anti_heal"), &env(true, false, false, false, false));
    assert_eq!(m.score, 18);
    assert_eq!(m.reasons, vec!["对手回复多，重伤价值提高".to_string()]);
}

#[test]
fn armor_shred_for_thick_frontline_and_physical_team() {
    let scorer = EnvironmentModifierScorer::new(EnvironmentWeights::default());
    let m = scorer.score_item(&item(vec!["armor_shred", "sustain"], ""), &env(false, true, true, false, true));
    assert_eq!(m.score, 16 + 8 + 12);
    assert_eq!(m.reasons.len(), 3);
    assert_eq!(m.reasons[2], "对手爆发高，生存装备价值提高");
}

#[test]
fn neutral_environment_adds_nothing() {
    let scorer = EnvironmentModifierScorer::new(EnvironmentWeights::default());
    let m = scorer.score_item(&item(vec!["anti_heal", "mr_shred"], ""), &env(false, false, false, false, false));
    assert_eq!(m.score, 0);
    assert!(m.reasons.is_empty());
}
