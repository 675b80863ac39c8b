//! HexSight rule engine: game-data models, keyword interpreters and scorers
//! with their behaviour stated as Verus contracts.
pub mod augment_economy_planner;
pub mod augment_effect_interpreter;
pub mod augment_option_ranker;
pub mod augment_reroll_scorer;
pub mod bench_transition_scorer;
pub mod champion_combat_profile_builder;
pub mod champion_item_fit;
pub mod damage_patch_loader;
pub mod data_types;
pub mod decision;
pub mod decision_planner;
pub mod double_ratio;
pub mod game_data_index;
pub mod environment_modifier;
pub mod error;
pub mod holder_scorer;
pub mod item_conflict_scorer;
pub mod item_fit_scorer;
pub mod json;
pub mod keyed;
pub mod knowledge_builders;
pub mod knowledge_decision_planner;
pub mod knowledge_types;
pub mod lineup;
pub mod lineup_adapter;
pub mod lineup_fit;
pub mod lineup_profile_builder;
pub mod llm_context;
pub mod mode_special_planner;
pub mod num;
pub mod opening_route_classifier;
pub mod order;
pub mod patch_modifier;
pub mod ranking;
pub mod remote_lineup_source;
pub mod reroll_eligibility_scorer;
pub mod rule_types;
pub mod rules;
pub mod rules_context;
pub mod team_effect_coverage;
pub mod text;
pub mod transition_risk_scorer;
pub mod types;
pub mod version_validator;

pub use error::{HexError, HexResult};
