# hexsight

A rule engine for the auto-battler advisor: it reads lineup cards and game
data, scores lineups, items, holders and augments against the board, and
plans the advice of a round (economy, augments, pivots, item holders,
rerolls). Every function under `src/` is verified with Verus against a
contract stated over mathematical views of its inputs and outputs.

Layout:

- `src/` — the verified library. Data types (`data_types`, `rule_types`,
  `knowledge_types`, `types`, `json`), the game-data index, lineup reading
  (`lineup_adapter`, `lineup_profile_builder`, `lineup`), the scorers
  (`holder_scorer`, `item_conflict_scorer`, `champion_item_fit`,
  `item_fit_scorer`, `team_effect_coverage`, `transition_risk_scorer`,
  `reroll_eligibility_scorer`, `augment_*`, the integer parts of
  `lineup_fit`), the knowledge builders, the version check
  (`version_validator`), the planners
  (`decision_planner`, `knowledge_decision_planner`, `mode_special_planner`),
  the rules and language-model contexts (`rules_context`, `llm_context`) and
  shared helpers (`text`, `keyed`, `order`, `ranking`, `num`, and
  `double_ratio`, which computes the few percentages the rules take through
  `f64` exactly as the hardware rounds them). Calls into
  `std` and `serde_json` that the proofs rely on stand behind a few trusted
  wrappers, each with a doc comment saying what it claims.
- `app/` — ordinary Rust around the library: reading configuration and
  lineup files, fetching the remote lineup list, the serde forms of the
  library's types, and the floating-point estimates (board power, fight
  outcome, damage calibration, combat value, the weighted lineup fit).
- `tests/` — tests of the library's public functions.
