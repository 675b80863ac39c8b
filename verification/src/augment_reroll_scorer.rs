//! Take / reroll / fallback decision over the three augments offered in a
//! round: the options are ranked, the best is taken when it reaches the stage's
//! minimum, otherwise a reroll is advised when one is available and promising,
//! else the safest fallback is taken.
use vstd::prelude::*;
use crate::item_conflict_scorer::seq_views;
use crate::num::max_int;
use crate::order::is_permutation;
use crate::ranking::{is_last_max, key_lt, last_max, stable_order, stably_sorted, Key3};
use crate::text::{cat, clone_strings, int_text, int_to_text, owned, push_str, views};

verus! {

/// The augment round.
#[derive(Debug, Clone, Copy, PartialEq, Eq, Structural)]
pub enum AugmentStage {
    First,
    Second,
    Third,
}

/// What to do with the offered augments.
#[derive(Debug, Clone, Copy, PartialEq, Eq, Structural)]
pub enum AugmentDecisionAction {
    Take,
    Reroll,
    TakeFallback,
}

/// One offered augment with its scores.
#[derive(Debug, Clone)]
pub struct RankedAugmentOption {
    pub augment_id: String,
    pub augment_name: String,
    pub total_score: i32,
    pub current_value: i32,
    pub lineup_coverage: i32,
    pub lock_risk: i32,
    pub fallback_score: i32,
    pub tags: Vec<String>,
    pub supported_lineup_ids: Vec<String>,
    pub reason: Vec<String>,
}

/// The board situation the augments are judged in.
#[derive(Debug, Clone, Default)]
pub struct AugmentSituationContext {
    pub current_hp: i32,
    pub current_gold: i32,
    pub item_gap_level: i32,
    pub core_hero_count: i32,
    pub locked_lineup_id: Option<String>,
    pub existing_effect_tags: Vec<String>,
    pub required_effect_tags: Vec<String>,
    pub preferred_damage_profile: Option<String>,
}

/// The input of a decision.
#[derive(Debug, Clone)]
pub struct AugmentRerollContext {
    pub ranked_options: Vec<RankedAugmentOption>,
    pub has_reroll: bool,
    pub stage: AugmentStage,
    pub current_hp: i32,
    pub current_gold: i32,
    pub locked_lineup_id: Option<String>,
}

/// The decision.
#[derive(Debug, Clone)]
pub struct AugmentRerollDecision {
    pub action: AugmentDecisionAction,
    pub recommended_augment_id: Option<String>,
    pub recommended_augment_name: Option<String>,
    pub fallback_augment_id: Option<String>,
    pub lock_risk: i32,
    pub expected_reroll_gain: i32,
    pub reason: Vec<String>,
    pub ranked_options: Vec<RankedAugmentOption>,
}

/// Minimum scores and adjustments of the decision.
#[derive(Debug, Clone)]
pub struct AugmentThresholds {
    pub version: String,
    pub first_min_take_score: i32,
    pub later_min_take_score: i32,
    pub fallback_min_score: i32,
    pub reroll_expected_gain: i32,
    pub low_hp_take_bonus: i32,
    pub low_hp_threshold: i32,
}

/// Score weights per augment type, keyed by type name.
#[derive(Debug, Clone)]
pub struct AugmentTypeWeights {
    pub version: String,
    pub weights: Vec<(String, i32)>,
}

/// Reads the decision's configuration files.
pub struct AugmentRerollConfigLoader;

/// Decides between taking, rerolling and falling back.
pub struct AugmentRerollScorer;

// ---------------------------------------------------------------------------
// Views
// ---------------------------------------------------------------------------

pub struct OptionView {
    pub augment_id: Seq<char>,
    pub augment_name: Seq<char>,
    pub total_score: i32,
    pub current_value: i32,
    pub lineup_coverage: i32,
    pub lock_risk: i32,
    pub fallback_score: i32,
    pub tags: Seq<Seq<char>>,
    pub supported_lineup_ids: Seq<Seq<char>>,
    pub reason: Seq<Seq<char>>,
}

impl View for RankedAugmentOption {
    type V = OptionView;

    open spec fn view(&self) -> OptionView {
        OptionView {
            augment_id: self.augment_id@,
            augment_name: self.augment_name@,
            total_score: self.total_score,
            current_value: self.current_value,
            lineup_coverage: self.lineup_coverage,
            lock_risk: self.lock_risk,
            fallback_score: self.fallback_score,
            tags: views(self.tags@),
            supported_lineup_ids: views(self.supported_lineup_ids@),
            reason: views(self.reason@),
        }
    }
}

pub open spec fn opt_text(o: Option<String>) -> Option<Seq<char>> {
    match o {
        Some(s) => Some(s@),
        None => None,
    }
}

pub struct DecisionView {
    pub action: AugmentDecisionAction,
    pub recommended_augment_id: Option<Seq<char>>,
    pub recommended_augment_name: Option<Seq<char>>,
    pub fallback_augment_id: Option<Seq<char>>,
    pub lock_risk: int,
    pub expected_reroll_gain: int,
    pub reason: Seq<Seq<char>>,
    pub ranked_options: Seq<OptionView>,
}

impl View for AugmentRerollDecision {
    type V = DecisionView;

    open spec fn view(&self) -> DecisionView {
        DecisionView {
            action: self.action,
            recommended_augment_id: opt_text(self.recommended_augment_id),
            recommended_augment_name: opt_text(self.recommended_augment_name),
            fallback_augment_id: opt_text(self.fallback_augment_id),
            lock_risk: self.lock_risk as int,
            expected_reroll_gain: self.expected_reroll_gain as int,
            reason: views(self.reason@),
            ranked_options: seq_views(self.ranked_options@),
        }
    }
}

// ---------------------------------------------------------------------------
// Thresholds and weights
// ---------------------------------------------------------------------------

impl AugmentThresholds {
    /// The minimum take score of a stage, lowered at low health but never
    /// below the fallback minimum.
    pub open spec fn min_take_spec(&self, stage: AugmentStage, current_hp: int) -> int {
        let base = match stage {
            AugmentStage::First => self.first_min_take_score as int,
            _ => self.later_min_take_score as int,
        };
        if current_hp <= self.low_hp_threshold {
            max_int(base - self.low_hp_take_bonus, self.fallback_min_score as int)
        } else {
            base
        }
    }

    /// Where the low-health bonus applies, lowering the stage's minimum by it
    /// stays within `i32`.
    pub open spec fn bonus_fits(&self, stage: AugmentStage, current_hp: int) -> bool {
        current_hp <= self.low_hp_threshold ==> i32::MIN <= (match stage {
            AugmentStage::First => self.first_min_take_score as int,
            _ => self.later_min_take_score as int,
        }) - self.low_hp_take_bonus <= i32::MAX
    }

    fn min_take_score(&self, stage: AugmentStage, current_hp: i32) -> (r: i32)
        requires
            self.bonus_fits(stage, current_hp as int),
        ensures
            r == self.min_take_spec(stage, current_hp as int),
    {
        let base = match stage {
            AugmentStage::First => self.first_min_take_score,
            AugmentStage::Second | AugmentStage::Third => self.later_min_take_score,
        };
        if current_hp <= self.low_hp_threshold {
            let lowered = base - self.low_hp_take_bonus;
            if lowered >= self.fallback_min_score {
                lowered
            } else {
                self.fallback_min_score
            }
        } else {
            base
        }
    }
}

impl Default for AugmentThresholds {
    fn default() -> (t: Self)
        ensures
            t.version@ == "default"@,
            t.first_min_take_score == 65,
            t.later_min_take_score == 58,
            t.fallback_min_score == 35,
            t.reroll_expected_gain == 12,
            t.low_hp_take_bonus == 8,
            t.low_hp_threshold == 45,
    {
        AugmentThresholds {
            version: owned("default"),
            first_min_take_score: 65,
            later_min_take_score: 58,
            fallback_min_score: 35,
            reroll_expected_gain: 12,
            low_hp_take_bonus: 8,
            low_hp_threshold: 45,
        }
    }
}

/// The built-in weight of each augment type.
pub open spec fn default_type_weights() -> Seq<(Seq<char>, i32)> {
    seq![
        ("generic_combat"@, 8i32),
        ("generic_econ"@, 5i32),
        ("generic_item"@, 10i32),
        ("trait_commit"@, -6i32),
        ("hero_commit"@, -18i32),
        ("reroll_enable"@, 6i32),
        ("tempo"@, 7i32),
        ("late_cap"@, 2i32),
        ("mode_special"@, -4i32),
        ("high_risk"@, -10i32),
    ]
}

impl Default for AugmentTypeWeights {
    fn default() -> (w: Self)
        ensures
            w.version@ == "default"@,
            w.weights@.map_values(|e: (String, i32)| (e.0@, e.1)) == default_type_weights(),
    {
        let weights = vec![
            (owned("generic_combat"), 8i32),
            (owned("generic_econ"), 5i32),
            (owned("generic_item"), 10i32),
            (owned("trait_commit"), -6i32),
            (owned("hero_commit"), -18i32),
            (owned("reroll_enable"), 6i32),
            (owned("tempo"), 7i32),
            (owned("late_cap"), 2i32),
            (owned("mode_special"), -4i32),
            (owned("high_risk"), -10i32),
        ];
        assert(weights@.map_values(|e: (String, i32)| (e.0@, e.1)) =~= default_type_weights());
        AugmentTypeWeights { version: owned("default"), weights }
    }
}

// ---------------------------------------------------------------------------
// The decision
// ---------------------------------------------------------------------------

/// Ranking key: higher total, then higher fallback score, then lower lock risk
/// come first.
pub open spec fn rank_key(o: OptionView) -> Key3 {
    (-(o.total_score as int) as i64, -(o.fallback_score as int) as i64, o.lock_risk as i64)
}

/// Fallback key: fallback score, then coverage, then lower lock risk.
pub open spec fn fallback_key(o: OptionView) -> Key3 {
    (o.fallback_score as i64, o.lineup_coverage as i64, -(o.lock_risk as int) as i64)
}

/// `ranked` is `opts` sorted by rank key, equal keys in their original order.
pub open spec fn ranked_from(opts: Seq<OptionView>, ranked: Seq<OptionView>) -> bool {
    exists|idx: Seq<usize>|
        is_permutation(idx, opts.len()) && stably_sorted(opts.map_values(|o: OptionView| rank_key(o)), idx)
            && ranked.len() == opts.len() && forall|i: int| 0 <= i < ranked.len() ==> #[trigger] ranked[i]
            == opts[idx[i] as int]
}

/// Position of the fallback among the ranked options: the last with the
/// greatest fallback key.
pub open spec fn is_fallback(ranked: Seq<OptionView>, f: int) -> bool {
    is_last_max(ranked.map_values(|o: OptionView| fallback_key(o)), f)
}

/// Gain expected from a reroll when the best total is `best`.
pub open spec fn reroll_gain(best: int, stage: AugmentStage, current_hp: int) -> int {
    let target = match stage {
        AugmentStage::First => 68int,
        _ => 62int,
    };
    let hp_adjust = if current_hp <= 45 {
        -6int
    } else {
        0int
    };
    max_int(target + hp_adjust - best, 0)
}

/// Reason given for taking the best option.
pub open spec fn take_reason(name: Seq<char>, min_take: int) -> Seq<char> {
    name + " 达到当前阶段最低可接受分 "@ + int_text(min_take)
}

/// Reason given for a reroll.
pub open spec fn reroll_reason(min_take: int, fallback_name: Seq<char>) -> Seq<char> {
    "三个候选都低于最低可接受分 "@ + int_text(min_take) + "，保留兜底 "@ + fallback_name + "，建议刷新"@
}

/// Reason given for taking the fallback.
pub open spec fn fallback_reason(o: OptionView) -> Seq<char> {
    "刷新机会不足或收益不足，兜底选择 "@ + o.augment_name + "，覆盖 "@ + int_text(o.lineup_coverage as int)
        + " 分且锁方向风险 "@ + int_text(o.lock_risk as int)
}

/// The decision over options already ranked, whose best is `ranked[0]` and
/// whose fallback is `ranked[f]`.
pub open spec fn decision_for(
    ranked: Seq<OptionView>,
    f: int,
    has_reroll: bool,
    stage: AugmentStage,
    current_hp: int,
    min_take: int,
    gain_threshold: int,
) -> DecisionView {
    let best = ranked[0];
    let fb = ranked[f];
    let gain = reroll_gain(best.total_score as int, stage, current_hp);
    if best.total_score >= min_take {
        DecisionView {
            action: AugmentDecisionAction::Take,
            recommended_augment_id: Some(best.augment_id),
            recommended_augment_name: Some(best.augment_name),
            fallback_augment_id: Some(fb.augment_id),
            lock_risk: best.lock_risk as int,
            expected_reroll_gain: gain,
            reason: seq![take_reason(best.augment_name, min_take)],
            ranked_options: ranked,
        }
    } else if has_reroll && gain >= gain_threshold {
        DecisionView {
            action: AugmentDecisionAction::Reroll,
            recommended_augment_id: None,
            recommended_augment_name: None,
            fallback_augment_id: Some(fb.augment_id),
            lock_risk: best.lock_risk as int,
            expected_reroll_gain: gain,
            reason: seq![reroll_reason(min_take, fb.augment_name)],
            ranked_options: ranked,
        }
    } else {
        DecisionView {
            action: AugmentDecisionAction::TakeFallback,
            recommended_augment_id: Some(fb.augment_id),
            recommended_augment_name: Some(fb.augment_name),
            fallback_augment_id: Some(fb.augment_id),
            lock_risk: fb.lock_risk as int,
            expected_reroll_gain: gain,
            reason: seq![fallback_reason(fb)],
            ranked_options: ranked,
        }
    }
}

/// The decision when no option was recognised.
pub open spec fn empty_decision() -> DecisionView {
    DecisionView {
        action: AugmentDecisionAction::TakeFallback,
        recommended_augment_id: None,
        recommended_augment_name: None,
        fallback_augment_id: None,
        lock_risk: 0,
        expected_reroll_gain: 0,
        reason: seq!["未识别到候选海克斯"@],
        ranked_options: seq![],
    }
}

/// The score a reroll aims for: 68 in the first round, 62 later, 6 less at
/// 45 health or below.
pub open spec fn gain_target(stage: AugmentStage, current_hp: int) -> int {
    (match stage {
        AugmentStage::First => 68int,
        _ => 62int,
    }) + if current_hp <= 45 {
        -6int
    } else {
        0int
    }
}

/// The decision's arithmetic stays within `i32` for these options: there are
/// none, or some total is high enough for the expected gain to be
/// representable.
pub open spec fn gain_fits(opts: Seq<OptionView>, stage: AugmentStage, current_hp: int) -> bool {
    opts.len() == 0 || exists|i: int|
        0 <= i < opts.len() && (#[trigger] opts[i]).total_score >= gain_target(stage, current_hp) - i32::MAX
}

fn clone_option(o: &RankedAugmentOption) -> (r: RankedAugmentOption)
    ensures
        r@ == o@,
{
    RankedAugmentOption {
        augment_id: o.augment_id.clone(),
        augment_name: o.augment_name.clone(),
        total_score: o.total_score,
        current_value: o.current_value,
        lineup_coverage: o.lineup_coverage,
        lock_risk: o.lock_risk,
        fallback_score: o.fallback_score,
        tags: clone_strings(&o.tags),
        supported_lineup_ids: clone_strings(&o.supported_lineup_ids),
        reason: clone_strings(&o.reason),
    }
}

/// The options sorted by rank key, ties in their original order.
pub(crate) fn sort_by_rank(opts: &Vec<RankedAugmentOption>) -> (r: Vec<RankedAugmentOption>)
    ensures
        ranked_from(seq_views(opts@), seq_views(r@)),
{
    let ghost ov = seq_views(opts@);
    let ghost kv = ov.map_values(|o: OptionView| rank_key(o));
    let mut keys: Vec<Key3> = Vec::new();
    let mut i: usize = 0;
    while i < opts.len()
        invariant
            ov == seq_views(opts@),
            kv == ov.map_values(|o: OptionView| rank_key(o)),
            i <= opts@.len(),
            keys@ == kv.subrange(0, i as int),
        decreases opts@.len() - i,
    {
        let o = &opts[i];
        let k: Key3 = (-(o.total_score as i64), -(o.fallback_score as i64), o.lock_risk as i64);
        keys.push(k);
        proof {
            assert(ov[i as int] == opts@[i as int]@);
            assert(k == kv[i as int]);
        }
        i = i + 1;
        assert(keys@ =~= kv.subrange(0, i as int));
    }
    assert(kv.subrange(0, i as int) =~= kv);
    let idx = stable_order(&keys);
    let mut r: Vec<RankedAugmentOption> = Vec::new();
    let mut t: usize = 0;
    while t < idx.len()
        invariant
            ov == seq_views(opts@),
            is_permutation(idx@, opts@.len()),
            t <= idx@.len(),
            r@.len() == t,
            forall|q: int| 0 <= q < t ==> (#[trigger] r@[q])@ == ov[idx@[q] as int],
        decreases idx@.len() - t,
    {
        let c = clone_option(&opts[idx[t]]);
        r.push(c);
        t = t + 1;
    }
    proof {
        let rv = seq_views(r@);
        assert forall|q: int| 0 <= q < rv.len() implies #[trigger] rv[q] == ov[idx@[q] as int] by {
            assert(rv[q] == r@[q]@);
        }
        assert(ranked_from(ov, rv));
    }
    r
}

/// Position of the fallback among ranked options.
fn fallback_position(ranked: &Vec<RankedAugmentOption>) -> (f: usize)
    requires
        ranked@.len() > 0,
    ensures
        is_fallback(seq_views(ranked@), f as int),
{
    let ghost rv = seq_views(ranked@);
    let ghost kv = rv.map_values(|o: OptionView| fallback_key(o));
    let mut keys: Vec<Key3> = Vec::new();
    let mut i: usize = 0;
    while i < ranked.len()
        invariant
            rv == seq_views(ranked@),
            kv == rv.map_values(|o: OptionView| fallback_key(o)),
            i <= ranked@.len(),
            keys@ == kv.subrange(0, i as int),
        decreases ranked@.len() - i,
    {
        let o = &ranked[i];
        let k: Key3 = (o.fallback_score as i64, o.lineup_coverage as i64, -(o.lock_risk as i64));
        keys.push(k);
        proof {
            assert(rv[i as int] == ranked@[i as int]@);
            assert(k == kv[i as int]);
        }
        i = i + 1;
        assert(keys@ =~= kv.subrange(0, i as int));
    }
    assert(kv.subrange(0, i as int) =~= kv);
    last_max(&keys)
}

/// The minimum take score under the default thresholds.
pub open spec fn default_min_take(stage: AugmentStage, current_hp: int) -> int {
    let base = match stage {
        AugmentStage::First => 65int,
        _ => 58int,
    };
    if current_hp <= 45 {
        max_int(base - 8, 35)
    } else {
        base
    }
}

/// `d` is the decision over `opts` for a minimum take score `min_take` and a
/// reroll gain threshold `gain_threshold`.
pub open spec fn decides(
    opts: Seq<OptionView>,
    has_reroll: bool,
    stage: AugmentStage,
    current_hp: int,
    min_take: int,
    gain_threshold: int,
    d: DecisionView,
) -> bool {
    if opts.len() == 0 {
        d == empty_decision()
    } else {
        &&& ranked_from(opts, d.ranked_options)
        &&& exists|f: int|
            is_fallback(d.ranked_options, f) && d == decision_for(
                d.ranked_options,
                f,
                has_reroll,
                stage,
                current_hp,
                min_take,
                gain_threshold,
            )
    }
}

/// A reroll is advised only when rerolling is possible, the best option is
/// under the take score and the expected gain reaches the reroll threshold;
/// under the take score without that gain (or without a reroll) the fallback
/// option is taken and recommended; at or over the take score the best
/// option is taken. The expected gain is what the stage's target (68 in the
/// first stage, 62 later, 6 less at 45 health or below) exceeds the best
/// total by, never below zero.
pub proof fn lemma_reroll_needs_gain(
    opts: Seq<OptionView>,
    has_reroll: bool,
    stage: AugmentStage,
    current_hp: int,
    min_take: int,
    gain_threshold: int,
    d: DecisionView,
)
    requires
        decides(opts, has_reroll, stage, current_hp, min_take, gain_threshold, d),
    ensures
        d.action == AugmentDecisionAction::Reroll ==> has_reroll && opts.len() > 0 && d.expected_reroll_gain
            >= gain_threshold && d.ranked_options[0].total_score < min_take && d.recommended_augment_id is None,
        opts.len() > 0 && d.ranked_options[0].total_score < min_take && (!has_reroll || d.expected_reroll_gain
            < gain_threshold) ==> d.action == AugmentDecisionAction::TakeFallback && d.recommended_augment_id
            == d.fallback_augment_id && d.fallback_augment_id is Some,
        opts.len() > 0 ==> (d.action == AugmentDecisionAction::Take <==> d.ranked_options[0].total_score >= min_take),
        opts.len() > 0 ==> d.action == AugmentDecisionAction::Take ==> d.recommended_augment_id == Some(
            d.ranked_options[0].augment_id,
        ),
        opts.len() > 0 ==> d.expected_reroll_gain == ({
            let target = (if stage == AugmentStage::First {
                68int
            } else {
                62int
            }) - (if current_hp <= 45 {
                6int
            } else {
                0int
            });
            if target > d.ranked_options[0].total_score {
                target - d.ranked_options[0].total_score
            } else {
                0
            }
        }),
{
    if opts.len() > 0 {
        let f = choose|f: int|
            is_fallback(d.ranked_options, f) && d == decision_for(
                d.ranked_options,
                f,
                has_reroll,
                stage,
                current_hp,
                min_take,
                gain_threshold,
            );
        assert(d == decision_for(d.ranked_options, f, has_reroll, stage, current_hp, min_take, gain_threshold));
    }
}

impl AugmentRerollScorer {
    /// The decision with the default thresholds.
    pub fn decide(context: &AugmentRerollContext) -> (d: AugmentRerollDecision)
        requires
            gain_fits(seq_views(context.ranked_options@), context.stage, context.current_hp as int),
        ensures
            decides(
                seq_views(context.ranked_options@),
                context.has_reroll,
                context.stage,
                context.current_hp as int,
                default_min_take(context.stage, context.current_hp as int),
                12,
                d@,
            ),
    {
        let th = AugmentThresholds::default();
        Self::decide_with_thresholds(context, &th)
    }

    /// The decision with the given thresholds.
    pub fn decide_with_thresholds(context: &AugmentRerollContext, thresholds: &AugmentThresholds) -> (d:
        AugmentRerollDecision)
        requires
            gain_fits(seq_views(context.ranked_options@), context.stage, context.current_hp as int),
            context.ranked_options@.len() > 0 ==> thresholds.bonus_fits(context.stage, context.current_hp as int),
        ensures
            decides(
                seq_views(context.ranked_options@),
                context.has_reroll,
                context.stage,
                context.current_hp as int,
                thresholds.min_take_spec(context.stage, context.current_hp as int),
                thresholds.reroll_expected_gain as int,
                d@,
            ),
    {
        if context.ranked_options.len() == 0 {
            let d = AugmentRerollDecision {
                action: AugmentDecisionAction::TakeFallback,
                recommended_augment_id: None,
                recommended_augment_name: None,
                fallback_augment_id: None,
                lock_risk: 0,
                expected_reroll_gain: 0,
                reason: vec![owned("未识别到候选海克斯")],
                ranked_options: Vec::new(),
            };
            proof {
                assert(d@.reason =~= seq!["未识别到候选海克斯"@]);
                assert(d@.ranked_options =~= Seq::<OptionView>::empty());
            }
            return d;
        }
        let ranked = sort_by_rank(&context.ranked_options);
        let ghost ov = seq_views(context.ranked_options@);
        let ghost rv = seq_views(ranked@);
        let f = fallback_position(&ranked);
        let min_take = thresholds.min_take_score(context.stage, context.current_hp);
        let best_total = ranked[0].total_score;
        proof {
            let idx = choose|idx: Seq<usize>|
                is_permutation(idx, ov.len()) && stably_sorted(ov.map_values(|o: OptionView| rank_key(o)), idx)
                    && rv.len() == ov.len() && forall|i: int| 0 <= i < rv.len() ==> #[trigger] rv[i]
                    == ov[idx[i] as int];
            let w = choose|i: int|
                0 <= i < ov.len() && (#[trigger] ov[i]).total_score >= gain_target(context.stage, context.current_hp as int)
                    - i32::MAX;
            assert(crate::order::occurs(idx, w));
            let j = choose|j: int| 0 <= j < idx.len() && idx[j] == w;
            assert(rv[j] == ov[w]);
            assert(rv[0] == ranked@[0]@);
            if j > 0 {
                let kv = ov.map_values(|o: OptionView| rank_key(o));
                assert(crate::ranking::comes_before(kv, idx[0] as int, idx[j] as int));
                assert(rv[0] == ov[idx[0] as int]);
            }
            assert(best_total >= gain_target(context.stage, context.current_hp as int) - i32::MAX);
        }
        let target: i32 = match context.stage {
            AugmentStage::First => 68,
            AugmentStage::Second | AugmentStage::Third => 62,
        };
        let hp_adjust: i32 = if context.current_hp <= 45 { -6 } else { 0 };
        let raw = target + hp_adjust - best_total;
        let gain: i32 = if raw > 0 { raw } else { 0 };
        let fb = &ranked[f];
        proof {
            assert(rv[f as int] == ranked@[f as int]@);
            assert(rv[0] == ranked@[0]@);
        }
        if best_total >= min_take {
            let best = &ranked[0];
            let mut line = cat(best.augment_name.as_str(), " 达到当前阶段最低可接受分 ");
            push_str(&mut line, int_to_text(min_take as i64).as_str());
            let d = AugmentRerollDecision {
                action: AugmentDecisionAction::Take,
                recommended_augment_id: Some(best.augment_id.clone()),
                recommended_augment_name: Some(best.augment_name.clone()),
                fallback_augment_id: Some(fb.augment_id.clone()),
                lock_risk: best.lock_risk,
                expected_reroll_gain: gain,
                reason: vec![line],
                ranked_options: ranked,
            };
            proof {
                assert(d@.reason =~= seq![take_reason(rv[0].augment_name, min_take as int)]);
                assert(d@ == decision_for(
                    rv,
                    f as int,
                    context.has_reroll,
                    context.stage,
                    context.current_hp as int,
                    min_take as int,
                    thresholds.reroll_expected_gain as int,
                ));
            }
            return d;
        }
        if context.has_reroll && gain >= thresholds.reroll_expected_gain {
            let mut line = cat("三个候选都低于最低可接受分 ", int_to_text(min_take as i64).as_str());
            push_str(&mut line, "，保留兜底 ");
            push_str(&mut line, fb.augment_name.as_str());
            push_str(&mut line, "，建议刷新");
            let lock_risk = ranked[0].lock_risk;
            let d = AugmentRerollDecision {
                action: AugmentDecisionAction::Reroll,
                recommended_augment_id: None,
                recommended_augment_name: None,
                fallback_augment_id: Some(fb.augment_id.clone()),
                lock_risk,
                expected_reroll_gain: gain,
                reason: vec![line],
                ranked_options: ranked,
            };
            proof {
                assert(d@.reason =~= seq![reroll_reason(min_take as int, rv[f as int].augment_name)]);
                assert(d@ == decision_for(
                    rv,
                    f as int,
                    context.has_reroll,
                    context.stage,
                    context.current_hp as int,
                    min_take as int,
                    thresholds.reroll_expected_gain as int,
                ));
            }
            return d;
        }
        let mut line = cat("刷新机会不足或收益不足，兜底选择 ", fb.augment_name.as_str());
        push_str(&mut line, "，覆盖 ");
        push_str(&mut line, int_to_text(fb.lineup_coverage as i64).as_str());
        push_str(&mut line, " 分且锁方向风险 ");
        push_str(&mut line, int_to_text(fb.lock_risk as i64).as_str());
        let fb_id = fb.augment_id.clone();
        let d = AugmentRerollDecision {
            action: AugmentDecisionAction::TakeFallback,
            recommended_augment_id: Some(fb_id.clone()),
            recommended_augment_name: Some(fb.augment_name.clone()),
            fallback_augment_id: Some(fb_id),
            lock_risk: fb.lock_risk,
            expected_reroll_gain: gain,
            reason: vec![line],
            ranked_options: ranked,
        };
        proof {
            assert(d@.reason =~= seq![fallback_reason(rv[f as int])]);
            assert(d@ == decision_for(
                rv,
                f as int,
                context.has_reroll,
                context.stage,
                context.current_hp as int,
                min_take as int,
                thresholds.reroll_expected_gain as int,
            ));
        }
        d
    }
}

} // verus!
