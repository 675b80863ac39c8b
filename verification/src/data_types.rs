//! Static game-data models (heroes, items, traits, augments, lineups) and the
//! snapshot types that rule contexts are made of.
use vstd::prelude::*;
use crate::json::JsonValue;

verus! {

/// Top-level wrapper of every game-data file: metadata plus the payload.
#[derive(Debug, Clone)]
pub struct DataContainer<T> {
    pub version: Option<String>,
    pub season: Option<String>,
    pub set_id: Option<String>,
    pub time: Option<String>,
    pub data: T,
}

/// A hero as the game data describes it (numbers kept as their text).
#[derive(Debug, Clone, Default)]
#[allow(non_snake_case)]
pub struct HeroData {
    pub id: String,
    pub name: String,
    pub price: String,
    pub picture: String,
    pub skillName: String,
    pub skillDesc: String,
    pub skillIcon: String,
    pub skillBriefValue: String,
    pub skillValueDesc: String,
    /// Race ids separated by `|`.
    pub species: String,
    /// Class ids separated by `|`.
    pub hero_class: String,
    pub initHP: String,
    pub initAttackDamage: String,
    pub attackSpeed: String,
    pub armor: String,
    pub magicResist: String,
    pub attackRange: String,
    pub initMP: String,
    pub maxMP: String,
    pub criticalStrikeChance: String,
    pub cost: i32,
    /// Id without the star suffix, shared by the star levels of one hero.
    pub base_key: String,
    pub star_level: i32,
}

/// An item.
#[derive(Debug, Clone, Default)]
#[allow(non_snake_case)]
pub struct EquipmentData {
    pub id: String,
    pub name: String,
    pub equip_type: String,
    pub picture: String,
    pub basicDesc: String,
    pub desc: String,
    pub synthesis1: String,
    pub synthesis2: String,
    pub icon: String,
    pub is_component: bool,
    pub is_completed: bool,
}

/// One level of a trait.
#[derive(Debug, Clone, Default)]
#[allow(non_snake_case)]
pub struct TraitData {
    pub id: String,
    pub name: String,
    pub checkId: String,
    /// 0 for a race, 1 for a class.
    pub trait_type: i32,
    pub color: String,
    pub level: i32,
    pub maxLevel: String,
    pub num: String,
    pub numList: String,
    pub desc: String,
    pub prefix: String,
    pub realDesc: String,
    pub picture: String,
    pub values: String,
    /// Activation counts.
    pub thresholds: Vec<i32>,
}

/// An augment.
#[derive(Debug, Clone, Default)]
#[allow(non_snake_case)]
pub struct HexData {
    pub id: String,
    pub name: String,
    pub level: String,
    pub desc: String,
    pub icon: String,
    pub is_legend: i32,
    pub hero_enhancement_type: String,
    pub fetterId: String,
}

/// Race or class id with its display name.
#[derive(Debug, Clone)]
pub struct RaceJobEntry {
    pub id: Option<String>,
    pub name: String,
}

/// Unlock mission of a hero.
#[derive(Debug, Clone)]
pub struct MissionData {
    pub id: String,
    pub hero_id: String,
    pub task_tips: String,
    pub desc: String,
}

/// A god and its reward stages.
#[derive(Debug, Clone)]
pub struct GodData {
    pub god_id: String,
    pub god_name: String,
    pub stages: Vec<GodStage>,
}

/// One reward stage of a god.
#[derive(Debug, Clone)]
pub struct GodStage {
    pub num: String,
    pub wishes: Vec<GodWishEntry>,
}

/// One reward on offer.
#[derive(Debug, Clone)]
pub struct GodWishEntry {
    pub id: String,
    pub name: String,
    pub desc: String,
    pub icon: String,
    pub god_id: String,
    pub god_name: String,
    pub stage: i32,
}

/// A lineup card: its summary and its full content.
#[derive(Debug, Clone, Default)]
pub struct LineupCardData {
    pub id: String,
    pub name: String,
    pub author: String,
    pub author_avatar: String,
    /// S, A, B or anything else.
    pub quality: String,
    pub traits: Vec<String>,
    pub category: Option<String>,
    pub tags: Vec<String>,
    /// The top-four rate as the lineup data gives it, a fraction.
    pub top4_rate: Option<JsonValue>,
    pub detail: LineupDetailData,
}

/// Full content of a lineup.
#[derive(Debug, Clone, Default)]
pub struct LineupDetailData {
    pub final_heroes: Vec<LineupPieceData>,
    pub early_heroes: Vec<LineupPieceData>,
    pub mid_heroes: Vec<LineupPieceData>,
    pub recommended_hex_ids: Vec<String>,
    pub replacement_hex_ids: Vec<String>,
    pub equipment_order_ids: Vec<String>,
    pub level_3_hero_ids: Vec<String>,
    pub hero_replacements: Vec<HeroReplacementData>,
    pub unlock_tasks: Vec<UnlockTaskData>,
    pub god_rewards: Vec<GodRewardData>,
    pub official_traits: Vec<TraitContactData>,
    pub early_traits: Vec<TraitContactData>,
    pub mid_traits: Vec<TraitContactData>,
    pub chosen_contact: Option<TraitContactData>,
    pub messenger_contact: Option<TraitContactData>,
    pub chosen_backups: Vec<ChosenBackupData>,
    pub line_feature: String,
    pub early_info: String,
    pub d_time: String,
    pub location_info: String,
    pub location_info2: String,
    pub enemy_info: String,
    pub hex_info: String,
    pub equipment_info: String,
    pub god_reward_info: String,
    pub task_info: String,
    pub chosen_info: String,
    pub early_round: String,
    pub mid_round: String,
    pub staff_info: String,
    pub goop_info: String,
    pub trait_party_info: String,
    pub legend_galaxy_info: String,
}

/// A piece placed in a lineup.
#[derive(Debug, Clone, Default)]
pub struct LineupPieceData {
    pub id_in_lineup: i32,
    pub chess_type: String,
    pub hero_id: String,
    pub equipment_ids: Vec<String>,
    pub is_carry_hero: bool,
    pub row: i32,
    pub col: i32,
    /// "row,col".
    pub location_key: String,
}

/// Official trait count of a lineup.
#[derive(Debug, Clone, Default)]
pub struct TraitContactData {
    pub id: String,
    pub contact_type: String,
    pub count: i32,
    pub color: i32,
    pub level: i32,
}

/// Replacements for a hero.
#[derive(Debug, Clone)]
pub struct HeroReplacementData {
    pub hero_id: String,
    pub replacement_hero_ids: Vec<String>,
}

/// Unlock task of a lineup.
#[derive(Debug, Clone)]
pub struct UnlockTaskData {
    pub task_id: String,
    pub chess_id: String,
    pub hero_id: String,
}

/// God reward chosen at a stage.
#[derive(Debug, Clone)]
pub struct GodRewardData {
    pub stage: i32,
    pub god_id: String,
    pub wish_ids: Vec<String>,
}

/// Backup pick for the chosen mechanic.
#[derive(Debug, Clone)]
pub struct ChosenBackupData {
    pub hero_id: String,
    pub trait_id: String,
    pub backup_type: String,
}

/// What a game mode offers.
#[derive(Debug, Clone, Copy, PartialEq, Eq, Structural)]
pub struct ModeCapability {
    pub standard_lineup: bool,
    pub god_rewards: bool,
    pub unlock_tasks: bool,
    pub chosen_mechanics: bool,
    pub transition_contacts: bool,
}

/// Configuration of a game mode.
#[derive(Debug, Clone)]
pub struct ModeProfileData {
    pub id: String,
    pub name: String,
    pub season: String,
    pub lineup_version_path: String,
    pub channel: String,
    pub capabilities: Vec<String>,
    pub cache_file_name: String,
}

/// Hero entry of a rules context.
#[derive(Debug, Clone)]
pub struct RuleHeroSnapshot {
    pub id: String,
    pub name: String,
    pub cost: i32,
    pub picture: String,
    pub position: String,
    pub is_carry: bool,
    pub equipment_ids: Vec<String>,
    pub equipment_names: Vec<String>,
}

/// Item entry of a rules context.
#[derive(Debug, Clone)]
pub struct RuleEquipmentSnapshot {
    pub id: String,
    pub name: String,
    pub equip_type: String,
    pub picture: String,
}

/// Augment entry of a rules context.
#[derive(Debug, Clone)]
pub struct RuleHexSnapshot {
    pub id: String,
    pub name: String,
    pub level: i32,
    pub desc: String,
    pub icon: String,
}

/// Trait entry of a rules context.
#[derive(Debug, Clone)]
pub struct RuleTraitSnapshot {
    pub id: String,
    pub trait_id: String,
    pub trait_type: String,
    pub name: String,
    pub count: i32,
    pub color: i32,
    pub level: i32,
    pub picture: String,
}

/// Mode section of a rules context.
#[derive(Debug, Clone)]
pub struct ModeContextInfo {
    pub id: String,
    pub name: String,
    pub season: String,
    pub capabilities: Vec<String>,
}

/// Lineup section of a rules context.
#[derive(Debug, Clone)]
pub struct LineupContextInfo {
    pub id: String,
    pub name: String,
    pub author: String,
    pub quality: String,
    pub tags: Vec<String>,
}

/// Augment section of a rules context.
#[derive(Debug, Clone)]
pub struct AugmentsContext {
    pub recommended: Vec<HexRef>,
    pub replacement: Vec<HexRef>,
}

/// Reference to an augment.
#[derive(Debug, Clone)]
pub struct HexRef {
    pub id: String,
    pub name: String,
    pub level: i32,
}

/// Item section of a rules context.
#[derive(Debug, Clone)]
pub struct EquipmentContext {
    pub order: Vec<EquipRef>,
}

/// Reference to an item.
#[derive(Debug, Clone)]
pub struct EquipRef {
    pub id: String,
    pub name: String,
}

/// Result of checking a mode's lineups against its game data.
#[derive(Debug, Clone)]
pub struct ValidationReport {
    pub mode: String,
    pub total_lineups: usize,
    pub total_hero_ids: usize,
    pub total_equip_ids: usize,
    pub missing_hero_ids: Vec<String>,
    pub missing_equip_ids: Vec<String>,
    pub parseable_lineups: usize,
    pub unparseable_lineups: Vec<String>,
}

} // verus!
