//! Runtime game-state types: recognized frames, board pieces, decisions and
//! static lineup configuration.
use vstd::prelude::*;

verus! {

/// Everything read from a single captured frame.
#[derive(Debug, Clone, Default)]
pub struct RecognizedFrame {
    pub gold: u32,
    pub hp: u32,
    pub level: u32,
    /// Experience, 0-100.
    pub exp: u32,
    /// Round label such as "2-1".
    pub round: String,
    pub phase: GamePhase,
    /// Positive for a win streak, negative for a loss streak.
    pub streak: i32,
    pub own_heroes: Vec<Hero>,
    pub own_equipment: Vec<Equipment>,
    pub hextechs: Vec<Hextech>,
    pub opponents: Vec<OpponentInfo>,
}

/// Phase of the current round.
#[derive(Debug, Clone, Copy, Default, PartialEq, Eq, Structural)]
pub enum GamePhase {
    #[default]
    Unknown,
    PvE,
    PvP,
    Carousel,
    HextechSelect,
    Idle,
}

/// A piece on the board.
#[derive(Debug, Default)]
pub struct Hero {
    pub name: String,
    /// Cost, 1-5.
    pub cost: u32,
    /// Star level, 1-3.
    pub star: u32,
    /// (row, column).
    pub position: (u32, u32),
    pub items: Vec<Equipment>,
}

impl Clone for Hero {
    fn clone(&self) -> (r: Self) {
        Hero {
            name: self.name.clone(),
            cost: self.cost,
            star: self.star,
            position: (self.position.0, self.position.1),
            items: self.items.clone(),
        }
    }
}

/// An item, on the bench or worn.
#[derive(Debug, Clone, Default)]
pub struct Equipment {
    pub name: String,
    pub equip_type: EquipmentType,
    /// `false` for a component.
    pub completed: bool,
}

/// Item category.
#[derive(Debug, Clone, Copy, Default, PartialEq, Eq, Structural)]
pub enum EquipmentType {
    #[default]
    Unknown,
    Offensive,
    Defensive,
    Utility,
    Emblem,
}

/// A chosen augment.
#[derive(Debug, Clone, Default)]
pub struct Hextech {
    pub name: String,
    /// Tier, 1-3.
    pub tier: u32,
}

/// What the sidebar shows of an opponent.
#[derive(Debug, Clone, Default)]
pub struct OpponentInfo {
    /// Index, 0-6.
    pub index: u32,
    pub hp: u32,
    pub level: u32,
    pub traits: Vec<String>,
}

/// Whole-game state kept across frames.
#[derive(Debug, Clone, Default)]
pub struct GameState {
    pub current: RecognizedFrame,
    pub history: Vec<RecognizedFrame>,
    pub active_lineup: Option<LineupRef>,
    /// Number of opponents playing the same composition.
    pub rival_count: u32,
    pub risk_level: RiskLevel,
    pub started_at: u64,
    pub frame_seq: u64,
}

/// Reference to a lineup.
#[derive(Debug, Clone)]
pub struct LineupRef {
    pub name: String,
    /// Strength tier label (T0/T1/T2).
    pub tier: String,
    pub playstyle: Playstyle,
}

/// Economy style.
#[derive(Debug, Clone, Copy, PartialEq, Eq, Structural)]
pub enum Playstyle {
    Standard,
    Reroll,
    Fast9,
}

/// Risk level.
#[derive(Debug, Clone, Copy, Default, PartialEq, Eq, Structural)]
pub enum RiskLevel {
    #[default]
    Low,
    Medium,
    High,
}

/// Final advice pushed to the overlay.
#[derive(Debug, Clone, Default)]
pub struct Decision {
    pub lineup_name: String,
    pub suggestions: Vec<String>,
    pub rival_count: u32,
    pub risk_level: RiskLevel,
    pub equip_route: Vec<String>,
    pub transition: Vec<String>,
    pub llm_advice: Option<String>,
    pub source: DecisionSource,
}

/// Where a decision came from.
#[derive(Debug, Clone, Copy, Default, PartialEq, Eq, Structural)]
pub enum DecisionSource {
    #[default]
    RuleEngine,
    LLM,
    Hybrid,
}

/// A lineup as configured for a patch.
#[derive(Debug, Clone)]
pub struct LineupConfig {
    pub name: String,
    pub tier: String,
    pub playstyle: String,
    pub main_carry: Vec<String>,
    pub sub_carry: Vec<String>,
    pub main_tank: Vec<String>,
    pub traits: Vec<String>,
    pub carry_items: Vec<String>,
    pub sub_carry_items: Vec<String>,
    pub tank_items: Vec<String>,
    pub transitions: Vec<TransitionRule>,
    pub hextechs_best: Vec<String>,
    pub hextechs_ok: Vec<String>,
    pub hextechs_bad: Vec<String>,
    pub rival_strategies: RivalStrategies,
}

/// Transition pieces for a stage range.
#[derive(Debug, Clone)]
pub struct TransitionRule {
    pub stage: String,
    pub units: Vec<String>,
    pub traits: Vec<String>,
}

/// Strategy by number of rivals (0-1 / 2 / 3 or more).
#[derive(Debug, Clone)]
pub struct RivalStrategies {
    pub low: String,
    pub medium: String,
    pub high: String,
}

/// Screen regions read at a fixed resolution.
#[derive(Debug)]
pub struct RegionConfig {
    pub resolution: (u32, u32),
    pub gold_rect: Rect,
    pub hp_bar: Rect,
    pub level_rect: Rect,
    pub exp_bar: Rect,
    pub round_rect: Rect,
    pub equip_slots: Vec<Rect>,
    pub board_grid: Vec<Rect>,
    pub shop_slots: Vec<Rect>,
    pub hextech_rects: Vec<Rect>,
    pub opponent_rects: Vec<Rect>,
    pub streak_rect: Rect,
}

impl Clone for RegionConfig {
    fn clone(&self) -> (r: Self) {
        RegionConfig {
            resolution: (self.resolution.0, self.resolution.1),
            gold_rect: self.gold_rect,
            hp_bar: self.hp_bar,
            level_rect: self.level_rect,
            exp_bar: self.exp_bar,
            round_rect: self.round_rect,
            equip_slots: self.equip_slots.clone(),
            board_grid: self.board_grid.clone(),
            shop_slots: self.shop_slots.clone(),
            hextech_rects: self.hextech_rects.clone(),
            opponent_rects: self.opponent_rects.clone(),
            streak_rect: self.streak_rect,
        }
    }
}

/// A screen rectangle.
#[derive(Debug, Clone, Copy, PartialEq, Eq, Structural)]
pub struct Rect {
    pub x: u32,
    pub y: u32,
    pub w: u32,
    pub h: u32,
}

} // verus!
