//! Rule-engine output and scoring types.
use vstd::prelude::*;
use crate::json::JsonValue;

verus! {

/// Play-style tag of a lineup.
#[derive(Debug, Clone, Copy, PartialEq, Eq, Hash, Structural)]
pub enum PlaystyleTag {
    Standard,
    Reroll1Cost,
    Reroll2Cost,
    Reroll3Cost,
    Fast8,
    Fast9,
    Tempo,
    LateCap,
    AugmentEnabled,
    RequiresAugment,
    ItemStrict,
    ItemFlexible,
    EconOpen,
    LossStreak,
    ModeSpecial,
}

/// Stable rule input of a lineup, built from the official lineup data.
#[derive(Debug, Clone)]
pub struct LineupProfile {
    pub lineup_id: String,
    pub name: String,
    /// Base strength of the patch tier (S/A/B: 100/80/60).
    pub base_tier: i32,
    pub playstyle_tags: Vec<PlaystyleTag>,
    pub final_hero_ids: Vec<String>,
    pub carry_hero_ids: Vec<String>,
    pub tank_hero_ids: Vec<String>,
    pub core_equipment_ids: Vec<String>,
    pub tank_equipment_ids: Vec<String>,
    pub equipment_order_ids: Vec<String>,
    pub recommended_hex_ids: Vec<String>,
    pub replacement_hex_ids: Vec<String>,
    pub early_hero_ids: Vec<String>,
    pub mid_hero_ids: Vec<String>,
    /// Target count per trait id.
    pub trait_targets: Vec<(String, i32)>,
    pub strategy_texts: Vec<(String, String)>,
    /// Mode-specific data.
    pub mode_specific: JsonValue,
    pub carry_costs: Vec<i32>,
    pub category: Option<String>,
}

/// Opening route.
#[derive(Debug, Clone, Copy, PartialEq, Eq, Structural)]
pub enum OpeningRoute {
    WinStreak,
    LossStreak,
    Mixed,
}

/// Score of one lineup, by component.
#[derive(Debug, Clone)]
pub struct LineupScore {
    pub lineup_id: String,
    pub name: String,
    pub total_score: i32,
    pub base_score: i32,
    pub item_fit_score: i32,
    pub champion_hit_score: i32,
    pub augment_fit_score: i32,
    pub trait_fit_score: i32,
    pub stage_fit_score: i32,
    pub economy_fit_score: i32,
    pub health_safety_score: i32,
    pub playstyle_switch_score: i32,
    pub rival_penalty: i32,
    pub difficulty_penalty: i32,
    pub reasons: Vec<String>,
    pub risks: Vec<String>,
    pub requires_augment: bool,
}

/// How the current items fit the candidate lineups.
#[derive(Debug, Clone)]
pub struct ItemFitResult {
    pub best_fit_lineup_ids: Vec<String>,
    /// AD / AP / tank / mixed.
    pub direction: String,
    pub core_component_count: i32,
    pub can_build_core_count: i32,
    /// 0-100.
    pub flexibility: i32,
    pub recommended_action: ItemAction,
    pub reasons: Vec<String>,
}

/// What to do with items.
#[derive(Debug, Clone, Copy, PartialEq, Eq, Structural)]
pub enum ItemAction {
    BuildCombatNow,
    WaitCore,
    BuildGeneric,
    HoldComponents,
    PivotForItems,
}

/// Board strength during the transition stages.
#[derive(Debug, Clone)]
pub struct TransitionStrength {
    pub total_score: i32,
    pub two_star_score: i32,
    pub frontline_score: i32,
    pub backline_score: i32,
    pub trait_score: i32,
    pub item_score: i32,
    pub augment_score: i32,
    pub lobby_rank_estimate: Option<i32>,
    pub is_strong_enough: bool,
    pub weaknesses: Vec<String>,
}

/// Whether rerolling for three-star units is advisable.
#[derive(Debug, Clone)]
pub struct RerollEligibility {
    pub score: i32,
    pub lineup_id: String,
    pub core_cost: i32,
    pub current_core_count: i32,
    pub target_count: i32,
    pub recommended_level: i32,
    pub tempo: String,
    pub stop_conditions: Vec<String>,
    pub abandon_conditions: Vec<String>,
    pub rival_count: i32,
    pub is_recommended: bool,
}

/// One recommended lineup.
#[derive(Debug, Clone)]
pub struct LineupRecommendation {
    pub lineup_id: String,
    pub name: String,
    pub score: i32,
    pub reason: Vec<String>,
    pub risk: Vec<String>,
}

/// Economy advice.
#[derive(Debug, Clone)]
pub struct EconomyDecision {
    pub action: String,
    pub reason: String,
}

/// Item advice.
#[derive(Debug, Clone)]
pub struct ItemDecision {
    pub action: String,
    pub reason: String,
}

/// Augment advice.
#[derive(Debug, Clone)]
pub struct AugmentDecision {
    /// `take` or `take_fallback`.
    pub action: String,
    pub recommended: String,
    pub lock_lineup: bool,
    pub follow_up: String,
}

/// Transition advice.
#[derive(Debug, Clone)]
pub struct TransitionDecision {
    pub route: String,
    pub target_damage_per_round: String,
    pub stop_loss_stage: String,
}

/// Thresholds of a rule pack.
#[derive(Debug, Clone, Copy, PartialEq, Eq, Structural)]
pub struct RuleThresholds {
    pub lock_lineup_score: i32,
    pub pivot_risk_score: i32,
    pub must_stabilize_health: i32,
    pub large_damage_warning: i32,
}

/// The rule engine's final advice. `F` is the fight prediction carried along
/// with it.
#[derive(Debug, Clone)]
pub struct RuleOutput<F> {
    pub strategy: String,
    /// At most three lineups, best first.
    pub lineup_recommendations: Vec<LineupRecommendation>,
    pub economy_action: EconomyDecision,
    pub item_action: ItemDecision,
    pub augment_action: AugmentDecision,
    pub transition_action: TransitionDecision,
    pub pivot_conditions: Vec<String>,
    pub fight_outcome: Option<F>,
    /// What the knowledge layer adds: holder, combat value, patch notes.
    pub knowledge_actions: Option<KnowledgeActions>,
    /// Seconds since the Unix epoch, as text.
    pub generated_at: String,
    pub engine_version: String,
}

/// The holder advice in short.
#[derive(Debug, Clone)]
pub struct HolderActionSummary {
    pub item: String,
    pub temporary_holder: String,
    pub final_holder: Option<String>,
    /// `equip_now` or `wait_for_target`.
    pub action: String,
    pub reason: String,
}

/// The comparison of item sets in short.
#[derive(Debug, Clone)]
pub struct CombatActionSummary {
    pub winner: String,
    pub score_diff: i32,
    pub reason: String,
}

/// What the knowledge layer adds to the advice.
#[derive(Debug, Clone)]
pub struct KnowledgeActions {
    pub holder: Option<HolderActionSummary>,
    pub combat: Option<CombatActionSummary>,
    /// One line per patch change.
    pub patch: Vec<String>,
    pub short_explanations: Vec<String>,
}

} // verus!
