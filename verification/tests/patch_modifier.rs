use hexsight::knowledge_types::PatchEntry;
use hexsight::patch_modifier::{PatchKnowledge, PatchModifier};
use hexsight::rule_types::{LineupProfile, LineupScore, PlaystyleTag};

fn profile(id: &str) -> LineupProfile {
    LineupProfile {
        lineup_id: id.into(),
        name: format!("阵容{}", id),
        base_tier: 80,
        playstyle_tags: vec![PlaystyleTag::Standard],
        final_hero_ids: vec!["hero_carry".into(), "hero_tank".into()],
        carry_hero_ids: vec!["hero_carry".into()],
        tank_hero_ids: vec!["hero_tank".into()],
        core_equipment_ids: vec!["item_core".into()],
        tank_equipment_ids: vec!["item_tank".into()],
        equipment_order_ids: vec![],
        recommended_hex_ids: vec!["augment_core".into()],
        replacement_hex_ids: vec![],
        early_hero_ids: vec![],
        mid_hero_ids: vec![],
        trait_targets: vec![("trait_core".into(), 4)],
        strategy_texts: vec![],
        mode_specific: hexsight::json::JsonValue::Null,
        carry_costs: vec![4],
        category: None,
    }
}

fn score(id: &str) -> LineupScore {
    LineupScore {
        lineup_id: id.into(),
        name: format!("阵容{}", id),
        total_score: 70,
        base_score: 80,
        item_fit_score: 50,
        champion_hit_score: 60,
        augment_fit_score: 50,
        trait_fit_score: 50,
        stage_fit_score: 70,
        economy_fit_score: 70,
        health_safety_score: 70,
        playstyle_switch_score: 50,
        rival_penalty: 0,
        difficulty_penalty: 0,
        reasons: vec![],
        risks: vec![],
        requires_augment: false,
    }
}

fn entry(target_type: &str, target_id: &str, target_name: &str, change_type: &str, impact: i32, lineups: Vec<&str>, reason: &str) -> PatchEntry {
    PatchEntry {
        patch_version: "S18.1".into(),
        published_at: String::new(),
        target_type: target_type.into(),
        target_id: target_id.into(),
        target_name: target_name.into(),
        change_type: change_type.into(),
        impact_score: impact,
        affected_lineups: lineups.into_iter().map(String::from).collect(),
        reason: reason.into(),
    }
}

fn knowledge(entries: Vec<PatchEntry>) -> PatchKnowledge {
    PatchKnowledge { version: "S18.1".into(), entries }
}

#[test]
fn patch_modifier_changes_lineup_score_and_explains_sources() {
    let knowledge = knowledge(vec![
        entry("champion", "hero_carry", "主C", "buff", 10, vec!["line_a"], "技能伤害提高"),
        entry("item", "item_core", "核心装", "nerf", -6, vec!["line_a"], "核心装备削弱"),
        entry("trait", "trait_core", "核心羁绊", "buff", 4, vec![], "羁绊数值提高"),
        entry("augment", "augment_core", "核心海克斯", "nerf", -3, vec![], "海克斯收益降低"),
    ]);

    let adjusted = PatchModifier::apply_to_score(&score("line_a"), &profile("line_a"), &knowledge);

    assert_eq!(adjusted.total_score, 75);
    assert_eq!(adjusted.base_score, 90);
    assert_eq!(adjusted.item_fit_score, 44);
    assert_eq!(adjusted.augment_fit_score, 47);
    assert_eq!(adjusted.trait_fit_score, 54);
    assert!(adjusted.reasons.iter().any(|line| line.contains("主C") && line.contains("+10")));
    assert!(adjusted.risks.iter().any(|line| line.contains("核心装") && line.contains("-6")));
}

#[test]
fn unrelated_patch_entries_do_not_change_lineup() {
    let knowledge = knowledge(vec![entry("champion", "other_hero", "其他英雄", "buff", 20, vec![], "不相关加强")]);

    let adjusted = PatchModifier::apply_to_score(&score("line_a"), &profile("line_a"), &knowledge);

    assert_eq!(adjusted.total_score, 70);
    assert!(adjusted.reasons.is_empty());
    assert!(adjusted.risks.is_empty());
}

#[test]
fn carry_nerf_reduces_lineup_total_and_base_score() {
    let knowledge = knowledge(vec![entry("champion", "hero_carry", "主C", "nerf", -12, vec![], "技能伤害降低")]);

    let adjusted = PatchModifier::apply_to_score(&score("line_a"), &profile("line_a"), &knowledge);

    assert_eq!(adjusted.base_score, 68);
    assert_eq!(adjusted.total_score, 58);
    assert!(adjusted.risks.iter().any(|line| line.contains("主C") && line.contains("-12")));
}

#[test]
fn core_item_buff_increases_lineup_item_fit_and_total_score() {
    let knowledge = knowledge(vec![entry("item", "item_core", "核心装", "buff", 9, vec![], "装备属性提高")]);

    let adjusted = PatchModifier::apply_to_score(&score("line_a"), &profile("line_a"), &knowledge);

    assert_eq!(adjusted.item_fit_score, 59);
    assert_eq!(adjusted.total_score, 79);
    assert!(adjusted.reasons.iter().any(|line| line.contains("核心装") && line.contains("+9")));
}

#[test]
fn explanation_line_and_clamping() {
    let knowledge = knowledge(vec![
        entry("system", "", "系统", "adjust", 40, vec![], ""),
        entry("lineup", "line_b", "别的阵容", "buff", 5, vec![], "x"),
    ]);
    let adjusted = PatchModifier::apply_to_score(&score("line_a"), &profile("line_a"), &knowledge);
    assert_eq!(adjusted.base_score, 100);
    assert_eq!(adjusted.total_score, 100);
    assert_eq!(adjusted.reasons, vec!["系统 adjust +40：版本公告修正".to_string()]);
}

#[test]
fn scores_without_profile_stay_unchanged() {
    let knowledge = knowledge(vec![entry("system", "", "系统", "nerf", -5, vec![], "全局削弱")]);
    let scores = vec![score("line_a"), score("line_x")];
    let out = PatchModifier::apply_to_scores(&scores, &[profile("line_a")], &knowledge);
    assert_eq!(out[0].total_score, 65);
    assert_eq!(out[1].total_score, 70);
    assert!(out[1].risks.is_empty());
}

#[test]
fn large_impacts_cancel_within_range() {
    let knowledge = knowledge(vec![
        entry("champion", "hero_carry", "主C", "buff", 2_000_000_000, vec!["line_a"], "大幅加强"),
        entry("champion", "hero_carry", "主C", "nerf", -2_000_000_000, vec!["line_a"], "大幅削弱"),
        entry("item", "item_core", "核心装", "buff", 5, vec!["line_a"], "核心装备加强"),
    ]);

    let adjusted = PatchModifier::apply_to_score(&score("line_a"), &profile("line_a"), &knowledge);

    assert_eq!(adjusted.total_score, 75);
    assert_eq!(adjusted.base_score, 0);
    assert_eq!(adjusted.item_fit_score, 55);
    assert_eq!(adjusted.reasons.len(), 2);
    assert_eq!(adjusted.risks.len(), 1);
}
