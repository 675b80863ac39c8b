//! The decision engine: rules and lineup library combined into the advice of
//! a round, with the cases that call for the language model flagged.
use vstd::prelude::*;
use crate::error::{HexError, HexResult};
use crate::lineup::{config_of_text, first_refused, LineupDB};
use crate::rules::RulesEngine;
use crate::types::{Decision, DecisionSource, GameState, RiskLevel};

verus! {

/// Combines the rules and the lineup library into a decision.
pub struct DecisionEngine {
    pub rules: RulesEngine,
    pub lineups: LineupDB,
    /// Whether the language model has been called on.
    pub llm_triggered: bool,
}

/// The language model is called on with three or more rivals, or under 30
/// health.
pub open spec fn needs_llm(state: GameState) -> bool {
    state.rival_count >= 3 || state.current.hp < 30
}

impl DecisionEngine {
    /// An engine with an empty lineup library.
    pub fn new() -> (e: Self)
        ensures
            e.lineups.lineups@.len() == 0,
            !e.llm_triggered,
    {
        DecisionEngine { rules: RulesEngine::new(), lineups: LineupDB::new(), llm_triggered: false }
    }

    /// Loads the lineup library from the files of a directory, given as their
    /// JSON texts; the first text that is not a configuration is the error.
    pub fn init(&mut self, lineup_files: &[String]) -> (r: HexResult<()>)
        ensures
            match first_refused(lineup_files@) {
                None => {
                    &&& r is Ok
                    &&& final(self).lineups.lineups@.len() == old(self).lineups.lineups@.len() + lineup_files@.len()
                    &&& forall|i: int|
                        0 <= i < lineup_files@.len() ==> Some(
                            #[trigger] final(self).lineups.lineups@[old(self).lineups.lineups@.len() + i]@,
                        ) == config_of_text(lineup_files@[i]@)
                },
                Some(k) => r matches Err(HexError::Config(m)) && m@ == "阵容配置无法解析"@
                    && final(self).lineups.lineups@.len() == old(self).lineups.lineups@.len() + k,
            },
            final(self).lineups.lineups@.subrange(0, old(self).lineups.lineups@.len() as int)
                == old(self).lineups.lineups@,
            final(self).llm_triggered == old(self).llm_triggered,
    {
        let loaded = self.lineups.load_from_dir(lineup_files);
        match loaded {
            Ok(_) => Ok(()),
            Err(e) => Err(e),
        }
    }

    /// The decision for a game state: a rule-engine decision, made hybrid
    /// (and the model flagged) when the state calls for the language model.
    pub fn decide(&mut self, state: &GameState) -> (d: Decision)
        ensures
            d.source == (if needs_llm(*state) { DecisionSource::Hybrid } else { DecisionSource::RuleEngine }),
            final(self).llm_triggered == (old(self).llm_triggered || needs_llm(*state)),
            final(self).lineups.lineups@ == old(self).lineups.lineups@,
            d.lineup_name@.len() == 0,
            d.suggestions@.len() == 0,
            d.rival_count == 0,
            d.risk_level == RiskLevel::Low,
            d.equip_route@.len() == 0,
            d.transition@.len() == 0,
            d.llm_advice is None,
    {
        let mut decision = Decision {
            lineup_name: String::new(),
            suggestions: Vec::new(),
            rival_count: 0,
            risk_level: RiskLevel::Low,
            equip_route: Vec::new(),
            transition: Vec::new(),
            llm_advice: None,
            source: DecisionSource::RuleEngine,
        };
        if self.should_trigger_llm(state) {
            decision.source = DecisionSource::Hybrid;
            self.llm_triggered = true;
        }
        decision
    }

    /// The lineup library.
    pub fn lineups(&self) -> (l: &LineupDB)
        ensures
            *l == self.lineups,
    {
        &self.lineups
    }

    /// The lineup library, for changes.
    pub fn lineups_mut(&mut self) -> (l: &mut LineupDB)
        ensures
            *l == old(self).lineups,
            final(self).lineups == *final(l),
            final(self).llm_triggered == old(self).llm_triggered,
    {
        &mut self.lineups
    }

    fn should_trigger_llm(&self, state: &GameState) -> (b: bool)
        ensures
            b == needs_llm(*state),
    {
        state.rival_count >= 3 || state.current.hp < 30
    }
}

impl Default for DecisionEngine {
    fn default() -> (e: Self)
        ensures
            e.lineups.lineups@.len() == 0,
            !e.llm_triggered,
    {
        DecisionEngine::new()
    }
}

} // verus!
