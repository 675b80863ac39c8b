//! Temporary item holders: which unit on the board or bench should carry a
//! completed item now, who holds it in the end, and what selling the
//! temporary holder costs.
use vstd::prelude::*;
use crate::bench_transition_scorer::{
    champion_for, find_champion, fits_role, has_unit, holder_role_spec, infer_holder_role, role_matches_holder,
    transfer_cost, transition_spec, BenchTransitionScorer, TransitionView,
};
use crate::champion_item_fit::{fit_score, synthesizable, ChampionItemFitScorer, ItemSynthesisIndex};
use crate::keyed::{keys_of, lookup};
use crate::knowledge_types::{ChampionCapability, ItemValueProfile};
use crate::num::clamp;
use crate::order::is_permutation;
use crate::ranking::{stable_order, stably_sorted, Key3};
use crate::rule_types::LineupProfile;
use crate::text::{cat, clone_strings, list_has, owned, push_str, str_eq, views};

verus! {

/// Where a unit stands.
#[derive(Debug, Clone, Copy, PartialEq, Eq, Structural)]
pub enum HolderUnitSource {
    Board,
    Bench,
}

/// A unit on the board or the bench.
#[derive(Debug, Clone, PartialEq, Eq)]
pub struct HolderUnit {
    pub hero_id: String,
    pub star_level: i32,
    pub source: HolderUnitSource,
    pub item_ids: Vec<String>,
    pub active_trait_ids: Vec<String>,
}

impl HolderUnit {
    /// A unit with no items and no active traits.
    pub fn new(hero_id: &str, star_level: i32, source: HolderUnitSource) -> (r: Self)
        ensures
            r.hero_id@ == hero_id@,
            r.star_level == star_level,
            r.source == source,
            r.item_ids@.len() == 0,
            r.active_trait_ids@.len() == 0,
    {
        HolderUnit { hero_id: owned(hero_id), star_level, source, item_ids: Vec::new(), active_trait_ids: Vec::new() }
    }
}

/// The role a holder plays for an item.
#[derive(Debug, Clone, Copy, PartialEq, Eq, Structural)]
pub enum HolderRole {
    Carry,
    Tank,
    Utility,
}

/// What to do with an item.
#[derive(Debug, Clone, Copy, PartialEq, Eq, Structural)]
pub enum HolderAction {
    EquipNow,
    WaitForTarget,
}

/// What the holder scorer looks at.
#[derive(Debug, Clone)]
pub struct HolderScoringContext {
    pub board_units: Vec<HolderUnit>,
    pub bench_units: Vec<HolderUnit>,
    pub completed_item_ids: Vec<String>,
    pub component_item_ids: Vec<String>,
    pub active_trait_ids: Vec<String>,
    pub target_lineups: Vec<LineupProfile>,
}

/// Advice for one item.
#[derive(Debug, Clone)]
pub struct HolderRecommendation {
    pub item_id: String,
    pub item_name: String,
    pub temporary_holder_id: String,
    pub temporary_holder_name: String,
    pub holder_role: HolderRole,
    pub final_holder_id: Option<String>,
    pub final_holder_name: Option<String>,
    pub score: i32,
    pub sell_cost: i32,
    pub action: HolderAction,
    pub reasons: Vec<String>,
}

/// The best advice, up to three alternatives, and a one-line summary.
#[derive(Debug, Clone, Default)]
pub struct HolderPlan {
    pub best: Option<HolderRecommendation>,
    pub alternatives: Vec<HolderRecommendation>,
    pub summary: String,
}

/// Bonuses and penalties of the holder score.
#[derive(Debug, Clone)]
pub struct HolderRules {
    pub version: String,
    pub two_star_bonus: i32,
    pub board_bonus: i32,
    pub role_match_bonus: i32,
    pub trait_match_bonus: i32,
    pub wait_score_gap: i32,
    pub sell_cost_penalty_per_gold: i32,
}

impl Default for HolderRules {
    fn default() -> (r: Self)
        ensures
            r.version@ == "default"@,
            r.two_star_bonus == 18,
            r.board_bonus == 8,
            r.role_match_bonus == 16,
            r.trait_match_bonus == 4,
            r.wait_score_gap == 12,
            r.sell_cost_penalty_per_gold == 2,
    {
        HolderRules {
            version: owned("default"),
            two_star_bonus: 18,
            board_bonus: 8,
            role_match_bonus: 16,
            trait_match_bonus: 4,
            wait_score_gap: 12,
            sell_cost_penalty_per_gold: 2,
        }
    }
}

/// Hand-set bonuses of workhorse heroes, by hero id.
#[derive(Debug, Clone)]
pub struct WorkhorseOverrides {
    pub version: String,
    pub overrides: Vec<(String, WorkhorseOverride)>,
}

/// Hand-set bonus of one workhorse hero, for some roles (every role when
/// none is listed).
#[derive(Debug, Clone)]
pub struct WorkhorseOverride {
    pub bonus: i32,
    pub roles: Vec<HolderRole>,
    pub notes: String,
}

/// Scores temporary holders.
pub struct HolderScorer;

// ---------------------------------------------------------------------------
// Model
// ---------------------------------------------------------------------------

pub struct RecView {
    pub item_id: Seq<char>,
    pub item_name: Seq<char>,
    pub temporary_holder_id: Seq<char>,
    pub temporary_holder_name: Seq<char>,
    pub holder_role: HolderRole,
    pub final_holder_id: Option<Seq<char>>,
    pub final_holder_name: Option<Seq<char>>,
    pub score: i32,
    pub sell_cost: i32,
    pub action: HolderAction,
    pub reasons: Seq<Seq<char>>,
}

pub open spec fn opt_view(o: Option<String>) -> Option<Seq<char>> {
    match o {
        Some(s) => Some(s@),
        None => None,
    }
}

impl View for HolderRecommendation {
    type V = RecView;

    open spec fn view(&self) -> RecView {
        RecView {
            item_id: self.item_id@,
            item_name: self.item_name@,
            temporary_holder_id: self.temporary_holder_id@,
            temporary_holder_name: self.temporary_holder_name@,
            holder_role: self.holder_role,
            final_holder_id: opt_view(self.final_holder_id),
            final_holder_name: opt_view(self.final_holder_name),
            score: self.score,
            sell_cost: self.sell_cost,
            action: self.action,
            reasons: views(self.reasons@),
        }
    }
}

pub open spec fn rec_views(s: Seq<HolderRecommendation>) -> Seq<RecView> {
    s.map_values(|r: HolderRecommendation| r@)
}

/// Hero costs low enough that a three-star unit's sell price (nine times
/// the cost) is an `i32`.
pub open spec fn champions_fit(champs: Seq<ChampionCapability>) -> bool {
    crate::bench_transition_scorer::costs_fit(champs)
}

/// The inputs on which the holder scores can be computed: every sell price
/// fits an `i32`. The scores themselves are summed exactly, whatever the
/// configured bonuses.
pub open spec fn holder_fits(champs: Seq<ChampionCapability>, rules: HolderRules, overrides: Seq<(String, WorkhorseOverride)>) -> bool {
    champions_fit(champs)
}

/// How many of `traits` are among the active traits.
pub open spec fn matched_count(traits: Seq<Seq<char>>, active: Seq<Seq<char>>) -> int
    decreases traits.len(),
{
    if traits.len() == 0 {
        0
    } else {
        matched_count(traits.drop_last(), active) + if active.contains(traits.last()) {
            1int
        } else {
            0int
        }
    }
}

/// The override of hero `id` when it applies to `role`.
pub open spec fn applicable_override(overrides: Seq<(String, WorkhorseOverride)>, id: Seq<char>, role: HolderRole) -> Option<
    WorkhorseOverride,
> {
    match lookup(keys_of(overrides), id) {
        Some(o) => if o.roles@.len() == 0 || o.roles@.contains(role) {
            Some(o)
        } else {
            None
        },
        None => None,
    }
}

/// The score of unit `u` (hero `c`) as temporary holder of `item`, before
/// it is clamped: the hero's fit for the item, the star, board, role,
/// trait and override bonuses, less the sell price times its penalty.
pub open spec fn raw_holder_score(
    u: HolderUnit,
    c: ChampionCapability,
    item: ItemValueProfile,
    role: HolderRole,
    active: Seq<Seq<char>>,
    champs: Seq<ChampionCapability>,
    rules: HolderRules,
    overrides: Seq<(String, WorkhorseOverride)>,
) -> int {
    let m = matched_count(views(c.traits@), active);
    fit_score(c@, item@) + (if u.star_level >= 2 {
        rules.two_star_bonus as int
    } else {
        0
    }) + (if u.source == HolderUnitSource::Board {
        rules.board_bonus as int
    } else {
        0
    }) + (if fits_role(c, role) {
        rules.role_match_bonus as int
    } else {
        0
    }) + (if m > 0 {
        m * rules.trait_match_bonus
    } else {
        0
    }) + (match applicable_override(overrides, u.hero_id@, role) {
        Some(o) => o.bonus as int,
        None => 0,
    }) - transfer_cost(u, champs) * rules.sell_cost_penalty_per_gold
}

proof fn lemma_push_contains(active: Seq<Seq<char>>, t: Seq<char>, x: Seq<char>)
    ensures
        active.push(t).contains(x) <==> (active.contains(x) || x == t),
{
    if active.push(t).contains(x) {
        let k = choose|k: int| 0 <= k < active.push(t).len() && active.push(t)[k] == x;
        if k < active.len() {
            assert(active[k] == x);
        }
    }
    if active.contains(x) {
        let k = choose|k: int| 0 <= k < active.len() && active[k] == x;
        assert(active.push(t)[k] == x);
    }
    if x == t {
        assert(active.push(t)[active.len() as int] == x);
    }
}

proof fn lemma_matched_one_more(traits: Seq<Seq<char>>, active: Seq<Seq<char>>, t: Seq<char>)
    requires
        !active.contains(t),
        traits.no_duplicates(),
    ensures
        matched_count(traits, active.push(t)) == matched_count(traits, active) + if traits.contains(t) {
            1int
        } else {
            0int
        },
    decreases traits.len(),
{
    if traits.len() > 0 {
        let p = traits.drop_last();
        assert(p.no_duplicates());
        lemma_matched_one_more(p, active, t);
        lemma_push_contains(active, t, traits.last());
        if traits.last() == t {
            assert(!p.contains(t)) by {
                if p.contains(t) {
                    let k = choose|k: int| 0 <= k < p.len() && p[k] == t;
                    assert(traits[k] == traits[traits.len() - 1]);
                }
            }
            assert(traits[traits.len() - 1] == t);
        } else {
            assert(traits.contains(t) <==> p.contains(t)) by {
                if traits.contains(t) {
                    let k = choose|k: int| 0 <= k < traits.len() && traits[k] == t;
                    assert(k < traits.len() - 1);
                    assert(p[k] == t);
                }
                if p.contains(t) {
                    let k = choose|k: int| 0 <= k < p.len() && p[k] == t;
                    assert(traits[k] == t);
                }
            }
        }
    }
}

proof fn lemma_matched_monotone(traits: Seq<Seq<char>>, a1: Seq<Seq<char>>, a2: Seq<Seq<char>>)
    requires
        forall|x: Seq<char>| a1.contains(x) ==> a2.contains(x),
    ensures
        0 <= matched_count(traits, a1) <= matched_count(traits, a2),
    decreases traits.len(),
{
    if traits.len() > 0 {
        lemma_matched_monotone(traits.drop_last(), a1, a2);
    }
}

/// Active traits raise a holder's score: one more of the hero's traits
/// active (the hero listing each trait once) adds exactly the trait bonus to
/// the unclamped score, and with a bonus of at least zero a larger set of
/// active traits never scores a holder lower.
pub proof fn lemma_active_traits_raise_score(
    u: HolderUnit,
    c: ChampionCapability,
    item: ItemValueProfile,
    role: HolderRole,
    active: Seq<Seq<char>>,
    more: Seq<Seq<char>>,
    t: Seq<char>,
    champs: Seq<ChampionCapability>,
    rules: HolderRules,
    overrides: Seq<(String, WorkhorseOverride)>,
)
    ensures
        views(c.traits@).no_duplicates() && views(c.traits@).contains(t) && !active.contains(t) ==> raw_holder_score(
            u,
            c,
            item,
            role,
            active.push(t),
            champs,
            rules,
            overrides,
        ) == raw_holder_score(u, c, item, role, active, champs, rules, overrides) + rules.trait_match_bonus,
        rules.trait_match_bonus >= 0 && (forall|x: Seq<char>| active.contains(x) ==> more.contains(x))
            ==> raw_holder_score(u, c, item, role, active, champs, rules, overrides) <= raw_holder_score(
            u,
            c,
            item,
            role,
            more,
            champs,
            rules,
            overrides,
        ),
{
    let tr = views(c.traits@);
    if tr.no_duplicates() && tr.contains(t) && !active.contains(t) {
        lemma_matched_one_more(tr, active, t);
        lemma_matched_monotone(tr, active, active);
        let m = matched_count(tr, active);
        let b = rules.trait_match_bonus as int;
        assert(matched_count(tr, active.push(t)) == m + 1);
        assert((m + 1) * b == m * b + b) by (nonlinear_arith);
        assert(m == 0 ==> m * b == 0) by (nonlinear_arith);
        let with_t = if m + 1 > 0 {
            (m + 1) * b
        } else {
            0
        };
        let without = if m > 0 {
            m * b
        } else {
            0
        };
        assert(with_t == without + b);
    }
    if rules.trait_match_bonus >= 0 && (forall|x: Seq<char>| active.contains(x) ==> more.contains(x)) {
        lemma_matched_monotone(tr, active, more);
        let m1 = matched_count(tr, active);
        let m2 = matched_count(tr, more);
        let b = rules.trait_match_bonus as int;
        assert(m1 * b <= m2 * b) by (nonlinear_arith)
            requires
                0 <= m1 <= m2,
                b >= 0,
        ;
    }
}

pub open spec fn opt_text(b: bool, t: Seq<char>) -> Seq<Seq<char>> {
    if b {
        seq![t]
    } else {
        seq![]
    }
}

pub open spec fn role_reason(role: HolderRole) -> Seq<char> {
    match role {
        HolderRole::Carry => "输出定位匹配"@,
        HolderRole::Tank => "前排定位匹配"@,
        HolderRole::Utility => "功能定位可承载"@,
    }
}

/// Why unit `u` (hero `c`) may hold `item`.
pub open spec fn holder_reasons(
    u: HolderUnit,
    c: ChampionCapability,
    item: ItemValueProfile,
    role: HolderRole,
    active: Seq<Seq<char>>,
    overrides: Seq<(String, WorkhorseOverride)>,
    synthesized: bool,
) -> Seq<Seq<char>> {
    seq![c.name@ + "适配"@ + item.name@] + opt_text(synthesized, "装备席散件可合成"@) + opt_text(
        u.star_level >= 2,
        "二星质量可先稳血"@,
    ) + seq![
        if u.source == HolderUnitSource::Board {
            "当前已上场"@
        } else {
            "备战席可上场承载"@
        },
    ] + opt_text(fits_role(c, role), role_reason(role)) + opt_text(
        matched_count(views(c.traits@), active) > 0,
        "当前羁绊有贡献"@,
    ) + match applicable_override(overrides, u.hero_id@, role) {
        Some(o) => opt_text(o.notes@.len() > 0, o.notes@),
        None => seq![],
    }
}

/// The item should wait for its final holder: that hero is on the board or
/// bench, is not this unit, and this unit is one star or the final holder
/// fits the item nearly as well (within the wait gap).
pub open spec fn waits_for_target(
    u: HolderUnit,
    item: ItemValueProfile,
    d: Option<TransitionView>,
    ctx: HolderScoringContext,
    champs: Seq<ChampionCapability>,
    rules: HolderRules,
    raw: int,
) -> bool {
    match d {
        Some(d) => {
            let target_score = match champion_for(champs, d.final_holder_id) {
                Some(tc) => fit_score(tc@, item@),
                None => 0,
            };
            (has_unit(ctx.bench_units@, d.final_holder_id) || has_unit(ctx.board_units@, d.final_holder_id))
                && u.hero_id@ != d.final_holder_id && (u.star_level <= 1 || target_score + rules.wait_score_gap
                >= raw)
        },
        None => false,
    }
}

/// The advice for unit `u` (hero `c`) as holder of `item`. An item that
/// waits is given to its final holder at no sell cost.
pub open spec fn holder_rec(
    u: HolderUnit,
    c: ChampionCapability,
    item: ItemValueProfile,
    role: HolderRole,
    ctx: HolderScoringContext,
    champs: Seq<ChampionCapability>,
    rules: HolderRules,
    overrides: Seq<(String, WorkhorseOverride)>,
    synthesized: bool,
) -> RecView {
    let sell = transfer_cost(u, champs);
    let raw = raw_holder_score(u, c, item, role, views(ctx.active_trait_ids@), champs, rules, overrides);
    let d = transition_spec(
        item.item_id@,
        ctx.board_units@,
        ctx.bench_units@,
        ctx.target_lineups@,
        champs,
        role,
        sell,
        u.star_level <= 1 && sell <= 2,
    );
    let wait = waits_for_target(u, item, d, ctx, champs, rules, raw);
    let base = holder_reasons(u, c, item, role, views(ctx.active_trait_ids@), overrides, synthesized);
    let holder = if wait {
        champion_for(champs, d->0.final_holder_id)
    } else {
        None
    };
    RecView {
        item_id: item.item_id@,
        item_name: item.name@,
        temporary_holder_id: match holder {
            Some(tc) => tc.hero_id@,
            None => u.hero_id@,
        },
        temporary_holder_name: match holder {
            Some(tc) => tc.name@,
            None => c.name@,
        },
        holder_role: role,
        final_holder_id: match d {
            Some(d) => Some(d.final_holder_id),
            None => None,
        },
        final_holder_name: match d {
            Some(d) => Some(d.final_holder_name),
            None => None,
        },
        score: clamp(raw, 0, 140) as i32,
        sell_cost: if holder is Some {
            0
        } else {
            sell as i32
        },
        action: if wait {
            HolderAction::WaitForTarget
        } else {
            HolderAction::EquipNow
        },
        reasons: if wait {
            base + d->0.reasons
        } else {
            base
        },
    }
}

/// The advice for each unit of `units` that holds fewer than three items
/// and whose hero is known, in unit order.
pub open spec fn unit_recs(
    units: Seq<HolderUnit>,
    item: ItemValueProfile,
    role: HolderRole,
    ctx: HolderScoringContext,
    champs: Seq<ChampionCapability>,
    rules: HolderRules,
    overrides: Seq<(String, WorkhorseOverride)>,
    synthesized: bool,
) -> Seq<RecView>
    decreases units.len(),
{
    if units.len() == 0 {
        seq![]
    } else {
        let rest = unit_recs(units.drop_last(), item, role, ctx, champs, rules, overrides, synthesized);
        let u = units.last();
        if u.item_ids@.len() >= 3 {
            rest
        } else {
            match champion_for(champs, u.hero_id@) {
                Some(c) => rest.push(holder_rec(u, c, item, role, ctx, champs, rules, overrides, synthesized)),
                None => rest,
            }
        }
    }
}

/// Sort key of advice: higher score first.
pub open spec fn rec_key(r: RecView) -> Key3 {
    (-(r.score as int) as i64, 0, 0)
}

/// A unit that can hold one more item and whose hero is known.
pub open spec fn can_hold(u: HolderUnit, champs: Seq<ChampionCapability>) -> bool {
    u.item_ids@.len() < 3 && champion_for(champs, u.hero_id@) is Some
}

/// Number of units that can hold one more item and whose hero is known.
pub open spec fn holders_count(units: Seq<HolderUnit>, champs: Seq<ChampionCapability>) -> nat
    decreases units.len(),
{
    if units.len() == 0 {
        0
    } else {
        holders_count(units.drop_last(), champs) + if can_hold(units.last(), champs) {
            1nat
        } else {
            0nat
        }
    }
}

proof fn lemma_unit_recs(
    units: Seq<HolderUnit>,
    item: ItemValueProfile,
    role: HolderRole,
    ctx: HolderScoringContext,
    champs: Seq<ChampionCapability>,
    rules: HolderRules,
    overrides: Seq<(String, WorkhorseOverride)>,
    synthesized: bool,
)
    ensures
        ({
            let recs = unit_recs(units, item, role, ctx, champs, rules, overrides, synthesized);
            &&& recs.len() == holders_count(units, champs)
            &&& forall|i: int|
                0 <= i < recs.len() ==> exists|k: int|
                    0 <= k < units.len() && can_hold(units[k], champs) && #[trigger] recs[i] == holder_rec(
                        units[k],
                        champion_for(champs, units[k].hero_id@)->0,
                        item,
                        role,
                        ctx,
                        champs,
                        rules,
                        overrides,
                        synthesized,
                    )
            &&& forall|k: int|
                0 <= k < units.len() && #[trigger] can_hold(units[k], champs) ==> recs.contains(
                    holder_rec(
                        units[k],
                        champion_for(champs, units[k].hero_id@)->0,
                        item,
                        role,
                        ctx,
                        champs,
                        rules,
                        overrides,
                        synthesized,
                    ),
                )
        }),
    decreases units.len(),
{
    if units.len() > 0 {
        let pu = units.drop_last();
        lemma_unit_recs(pu, item, role, ctx, champs, rules, overrides, synthesized);
        let p = unit_recs(pu, item, role, ctx, champs, rules, overrides, synthesized);
        let recs = unit_recs(units, item, role, ctx, champs, rules, overrides, synthesized);
        assert forall|i: int| 0 <= i < recs.len() implies exists|k: int|
            0 <= k < units.len() && can_hold(units[k], champs) && #[trigger] recs[i] == holder_rec(
                units[k],
                champion_for(champs, units[k].hero_id@)->0,
                item,
                role,
                ctx,
                champs,
                rules,
                overrides,
                synthesized,
            ) by {
            if i < p.len() {
                assert(recs[i] == p[i]);
                let k = choose|k: int|
                    0 <= k < pu.len() && can_hold(pu[k], champs) && #[trigger] p[i] == holder_rec(
                        pu[k],
                        champion_for(champs, pu[k].hero_id@)->0,
                        item,
                        role,
                        ctx,
                        champs,
                        rules,
                        overrides,
                        synthesized,
                    );
                assert(units[k] == pu[k]);
            } else {
                assert(units[units.len() - 1] == units.last());
            }
        }
        assert forall|k: int| 0 <= k < units.len() && #[trigger] can_hold(units[k], champs) implies recs.contains(
            holder_rec(
                units[k],
                champion_for(champs, units[k].hero_id@)->0,
                item,
                role,
                ctx,
                champs,
                rules,
                overrides,
                synthesized,
            ),
        ) by {
            let x = holder_rec(
                units[k],
                champion_for(champs, units[k].hero_id@)->0,
                item,
                role,
                ctx,
                champs,
                rules,
                overrides,
                synthesized,
            );
            if k < units.len() - 1 {
                assert(pu[k] == units[k]);
                assert(can_hold(pu[k], champs));
                let q = choose|q: int| 0 <= q < p.len() && p[q] == x;
                assert(recs[q] == p[q]);
            } else {
                assert(recs[p.len() as int] == x);
            }
        }
    }
}

/// The advice for an item names each unit that holds fewer than three items
/// and whose hero is known exactly once, and no other unit: as many pieces of
/// advice as there are such units, each the advice for one of them, each of
/// them advised.
pub proof fn lemma_item_candidates(
    units: Seq<HolderUnit>,
    item: ItemValueProfile,
    role: HolderRole,
    ctx: HolderScoringContext,
    champs: Seq<ChampionCapability>,
    rules: HolderRules,
    overrides: Seq<(String, WorkhorseOverride)>,
    synthesized: bool,
    r: Seq<RecView>,
)
    requires
        sorted_recs(unit_recs(units, item, role, ctx, champs, rules, overrides, synthesized), r),
    ensures
        r.len() == holders_count(units, champs),
        forall|i: int|
            0 <= i < r.len() ==> exists|k: int|
                0 <= k < units.len() && can_hold(units[k], champs) && #[trigger] r[i] == holder_rec(
                    units[k],
                    champion_for(champs, units[k].hero_id@)->0,
                    item,
                    role,
                    ctx,
                    champs,
                    rules,
                    overrides,
                    synthesized,
                ),
        forall|k: int|
            0 <= k < units.len() && #[trigger] can_hold(units[k], champs) ==> r.contains(
                holder_rec(
                    units[k],
                    champion_for(champs, units[k].hero_id@)->0,
                    item,
                    role,
                    ctx,
                    champs,
                    rules,
                    overrides,
                    synthesized,
                ),
            ),
{
    let recs = unit_recs(units, item, role, ctx, champs, rules, overrides, synthesized);
    lemma_unit_recs(units, item, role, ctx, champs, rules, overrides, synthesized);
    let keys = recs.map_values(|x: RecView| rec_key(x));
    let idx = choose|idx: Seq<usize>|
        is_permutation(idx, recs.len()) && stably_sorted(keys, idx) && r.len() == recs.len() && forall|i: int|
            0 <= i < r.len() ==> #[trigger] r[i] == recs[idx[i] as int];
    assert forall|i: int| 0 <= i < r.len() implies exists|k: int|
        0 <= k < units.len() && can_hold(units[k], champs) && #[trigger] r[i] == holder_rec(
            units[k],
            champion_for(champs, units[k].hero_id@)->0,
            item,
            role,
            ctx,
            champs,
            rules,
            overrides,
            synthesized,
        ) by {
        assert(r[i] == recs[idx[i] as int]);
    }
    assert forall|k: int| 0 <= k < units.len() && #[trigger] can_hold(units[k], champs) implies r.contains(
        holder_rec(
            units[k],
            champion_for(champs, units[k].hero_id@)->0,
            item,
            role,
            ctx,
            champs,
            rules,
            overrides,
            synthesized,
        ),
    ) by {
        let x = holder_rec(
            units[k],
            champion_for(champs, units[k].hero_id@)->0,
            item,
            role,
            ctx,
            champs,
            rules,
            overrides,
            synthesized,
        );
        let q = choose|q: int| 0 <= q < recs.len() && recs[q] == x;
        assert(crate::order::occurs(idx, q));
        let i = choose|i: int| 0 <= i < idx.len() && idx[i] == q;
        assert(r[i] == recs[q]);
    }
}

/// `sorted` is `recs` by decreasing score, equal scores in their order.
pub open spec fn sorted_recs(recs: Seq<RecView>, sorted: Seq<RecView>) -> bool {
    exists|idx: Seq<usize>|
        is_permutation(idx, recs.len()) && stably_sorted(recs.map_values(|r: RecView| rec_key(r)), idx)
            && sorted.len() == recs.len() && forall|i: int| 0 <= i < sorted.len() ==> #[trigger] sorted[i]
            == recs[idx[i] as int]
}

/// `recs` by decreasing score, equal scores in their order.
pub open spec fn by_score(recs: Seq<RecView>) -> Seq<RecView> {
    choose|s: Seq<RecView>| sorted_recs(recs, s)
}

/// The one ordering of `recs` by decreasing score that keeps equal scores
/// in their order.
pub proof fn lemma_by_score(recs: Seq<RecView>, s: Seq<RecView>)
    requires
        sorted_recs(recs, s),
    ensures
        by_score(recs) == s,
{
    let t = by_score(recs);
    assert(sorted_recs(recs, t));
    let keys = recs.map_values(|r: RecView| rec_key(r));
    let a = choose|idx: Seq<usize>|
        is_permutation(idx, recs.len()) && stably_sorted(keys, idx) && s.len() == recs.len() && forall|i: int|
            0 <= i < s.len() ==> #[trigger] s[i] == recs[idx[i] as int];
    let b = choose|idx: Seq<usize>|
        is_permutation(idx, recs.len()) && stably_sorted(keys, idx) && t.len() == recs.len() && forall|i: int|
            0 <= i < t.len() ==> #[trigger] t[i] == recs[idx[i] as int];
    crate::ranking::lemma_stably_sorted_unique(keys, a, b);
    assert(s =~= t);
}

/// Advice a plan may hold: a score within 0-140; an item that waits goes
/// to its final holder at no sell cost; an item equipped now goes to a
/// board or bench unit holding fewer than three items.
pub open spec fn advice_ok(r: RecView, ctx: HolderScoringContext) -> bool {
    &&& 0 <= r.score <= 140
    &&& r.action == HolderAction::WaitForTarget ==> r.sell_cost == 0 && r.final_holder_id == Some(
        r.temporary_holder_id,
    )
    &&& r.action == HolderAction::EquipNow ==> exists|k: int|
        0 <= k < (ctx.board_units@ + ctx.bench_units@).len() && (#[trigger] (ctx.board_units@
            + ctx.bench_units@)[k]).hero_id@ == r.temporary_holder_id && (ctx.board_units@
            + ctx.bench_units@)[k].item_ids@.len() < 3
}

/// The hero found for an id has that id.
pub proof fn lemma_champion_for_id(champs: Seq<ChampionCapability>, id: Seq<char>)
    requires
        champion_for(champs, id) is Some,
    ensures
        champion_for(champs, id)->0.hero_id@ == id,
    decreases champs.len(),
{
    if champs.last().hero_id@ != id {
        lemma_champion_for_id(champs.drop_last(), id);
    }
}

/// The advice for a board or bench unit holding fewer than three items is
/// advice a plan may hold.
pub proof fn lemma_holder_rec_ok(
    k: int,
    c: ChampionCapability,
    item: ItemValueProfile,
    role: HolderRole,
    ctx: HolderScoringContext,
    champs: Seq<ChampionCapability>,
    rules: HolderRules,
    overrides: Seq<(String, WorkhorseOverride)>,
    synthesized: bool,
)
    requires
        0 <= k < (ctx.board_units@ + ctx.bench_units@).len(),
        (ctx.board_units@ + ctx.bench_units@)[k].item_ids@.len() < 3,
    ensures
        advice_ok(
            holder_rec((ctx.board_units@ + ctx.bench_units@)[k], c, item, role, ctx, champs, rules, overrides, synthesized),
            ctx,
        ),
{
    let u = (ctx.board_units@ + ctx.bench_units@)[k];
    let r = holder_rec(u, c, item, role, ctx, champs, rules, overrides, synthesized);
    let sell = transfer_cost(u, champs);
    let d = transition_spec(
        item.item_id@,
        ctx.board_units@,
        ctx.bench_units@,
        ctx.target_lineups@,
        champs,
        role,
        sell,
        u.star_level <= 1 && sell <= 2,
    );
    if r.action == HolderAction::WaitForTarget {
        let fid = d->0.final_holder_id;
        assert(d is Some);
        lemma_champion_for_id(champs, fid);
    }
}

/// Advice sorted by score keeps what holds of every piece of advice, and
/// puts higher scores first.
pub proof fn lemma_sorted_advice(recs: Seq<RecView>, sorted: Seq<RecView>, ctx: HolderScoringContext)
    requires
        sorted_recs(recs, sorted),
        forall|j: int| 0 <= j < recs.len() ==> advice_ok(#[trigger] recs[j], ctx),
    ensures
        sorted.len() == recs.len(),
        forall|q: int| 0 <= q < sorted.len() ==> advice_ok(#[trigger] sorted[q], ctx),
        forall|a: int, b: int| 0 <= a < b < sorted.len() ==> sorted[a].score >= sorted[b].score,
{
    let keys = recs.map_values(|r: RecView| rec_key(r));
    let idx = choose|idx: Seq<usize>|
        is_permutation(idx, recs.len()) && stably_sorted(keys, idx) && sorted.len() == recs.len() && forall|i: int|
            0 <= i < sorted.len() ==> #[trigger] sorted[i] == recs[idx[i] as int];
    assert forall|q: int| 0 <= q < sorted.len() implies advice_ok(#[trigger] sorted[q], ctx) by {
        assert(sorted[q] == recs[idx[q] as int]);
    }
    assert forall|a: int, b: int| 0 <= a < b < sorted.len() implies sorted[a].score >= sorted[b].score by {
        assert(sorted[a] == recs[idx[a] as int]);
        assert(sorted[b] == recs[idx[b] as int]);
        assert(crate::ranking::comes_before(keys, idx[a] as int, idx[b] as int));
        assert(keys[idx[a] as int] == rec_key(recs[idx[a] as int]));
        assert(keys[idx[b] as int] == rec_key(recs[idx[b] as int]));
    }
}

// ---------------------------------------------------------------------------
// Code
// ---------------------------------------------------------------------------

proof fn lemma_cost_positive(u: HolderUnit, champs: Seq<ChampionCapability>)
    requires
        champions_fit(champs),
    ensures
        1 <= transfer_cost(u, champs) <= i32::MAX,
{
    if champion_for(champs, u.hero_id@) is Some {
        crate::bench_transition_scorer::lemma_found_cost_fits(champs, u.hero_id@);
    }
}

fn matched_traits(traits: &Vec<String>, active: &Vec<String>) -> (m: usize)
    ensures
        m == matched_count(views(traits@), views(active@)),
        m <= traits@.len(),
{
    let ghost tv = views(traits@);
    let mut m: usize = 0;
    let mut i: usize = 0;
    while i < traits.len()
        invariant
            tv == views(traits@),
            i <= tv.len(),
            m == matched_count(tv.subrange(0, i as int), views(active@)),
            m <= i,
        decreases tv.len() - i,
    {
        assert(tv.subrange(0, i + 1).drop_last() =~= tv.subrange(0, i as int));
        assert(tv[i as int] == traits@[i as int]@);
        if list_has(active, traits[i].as_str()) {
            m = m + 1;
        }
        i = i + 1;
    }
    assert(tv.subrange(0, i as int) =~= tv);
    m
}

fn role_listed(roles: &Vec<HolderRole>, role: HolderRole) -> (b: bool)
    ensures
        b == roles@.contains(role),
{
    let mut i: usize = 0;
    while i < roles.len()
        invariant
            i <= roles@.len(),
            forall|j: int| 0 <= j < i ==> roles@[j] != role,
        decreases roles@.len() - i,
    {
        if roles[i] == role {
            return true;
        }
        i = i + 1;
    }
    false
}

fn find_override<'a>(overrides: &'a WorkhorseOverrides, id: &str, role: HolderRole) -> (r: Option<&'a WorkhorseOverride>)
    ensures
        match r {
            Some(o) => applicable_override(overrides.overrides@, id@, role) == Some(*o),
            None => applicable_override(overrides.overrides@, id@, role) is None,
        },
{
    match crate::keyed::find_value(&overrides.overrides, id) {
        Some(o) => {
            if o.roles.len() == 0 || role_listed(&o.roles, role) {
                Some(o)
            } else {
                None
            }
        },
        None => None,
    }
}

fn role_reason_text(role: HolderRole) -> (s: String)
    ensures
        s@ == role_reason(role),
{
    match role {
        HolderRole::Carry => owned("输出定位匹配"),
        HolderRole::Tank => owned("前排定位匹配"),
        HolderRole::Utility => owned("功能定位可承载"),
    }
}

fn clone_opt(o: &Option<String>) -> (r: Option<String>)
    ensures
        opt_view(r) == opt_view(*o),
{
    match o {
        Some(s) => Some(s.clone()),
        None => None,
    }
}

fn clone_rec(r: &HolderRecommendation) -> (c: HolderRecommendation)
    ensures
        c@ == r@,
{
    HolderRecommendation {
        item_id: r.item_id.clone(),
        item_name: r.item_name.clone(),
        temporary_holder_id: r.temporary_holder_id.clone(),
        temporary_holder_name: r.temporary_holder_name.clone(),
        holder_role: r.holder_role,
        final_holder_id: clone_opt(&r.final_holder_id),
        final_holder_name: clone_opt(&r.final_holder_name),
        score: r.score,
        sell_cost: r.sell_cost,
        action: r.action,
        reasons: clone_strings(&r.reasons),
    }
}

fn push_text(v: &mut Vec<String>, t: String)
    ensures
        views(final(v)@) == views(old(v)@).push(t@),
{
    let ghost before = views(v@);
    v.push(t);
    assert(views(v@) =~= before.push(t@));
}

impl HolderScorer {
    /// The unclamped score of `unit` as holder of `item`, and the unit's
    /// sell price.
    fn score_unit(
        unit: &HolderUnit,
        champion: &ChampionCapability,
        item: &ItemValueProfile,
        holder_role: HolderRole,
        context: &HolderScoringContext,
        champions: &[ChampionCapability],
        rules: &HolderRules,
        overrides: &WorkhorseOverrides,
    ) -> (r: (i128, i32))
        requires
            champion_for(champions@, unit.hero_id@) == Some(*champion),
            holder_fits(champions@, *rules, overrides.overrides@),
        ensures
            r.0 == raw_holder_score(
                *unit,
                *champion,
                *item,
                holder_role,
                views(context.active_trait_ids@),
                champions@,
                *rules,
                overrides.overrides@,
            ),
            r.1 == transfer_cost(*unit, champions@),
    {
        proof {
            lemma_cost_positive(*unit, champions@);
        }
        let fit = ChampionItemFitScorer::score_item(champion, item);
        let ghost f = fit_score(champion@, item@);
        assert(0 <= f <= 100);
        let two: i128 = if unit.star_level >= 2 {
            rules.two_star_bonus as i128
        } else {
            0
        };
        let board: i128 = if unit.source == HolderUnitSource::Board {
            rules.board_bonus as i128
        } else {
            0
        };
        let role: i128 = if role_matches_holder(champion, holder_role) {
            rules.role_match_bonus as i128
        } else {
            0
        };
        let m = matched_traits(&champion.traits, &context.active_trait_ids);
        let traits: i128 = if m > 0 {
            assert(-0x1_0000_0000_0000_0000_0000_0000 <= (m as i128) * (rules.trait_match_bonus as i128)
                <= 0x1_0000_0000_0000_0000_0000_0000) by (nonlinear_arith)
                requires
                    0 <= m <= 0x1_0000_0000_0000_0000,
                    -0x8000_0000 <= rules.trait_match_bonus <= 0x7fff_ffff,
            ;
            (m as i128) * (rules.trait_match_bonus as i128)
        } else {
            0
        };
        let bonus: i128 = match find_override(overrides, unit.hero_id.as_str(), holder_role) {
            Some(o) => o.bonus as i128,
            None => 0,
        };
        let sell = BenchTransitionScorer::unit_transfer_cost(unit, champions);
        assert(-0x1_0000_0000_0000_0000 <= (sell as i128) * (rules.sell_cost_penalty_per_gold as i128)
            <= 0x1_0000_0000_0000_0000) by (nonlinear_arith)
            requires
                1 <= sell <= 0x7fff_ffff,
                -0x8000_0000 <= rules.sell_cost_penalty_per_gold <= 0x7fff_ffff,
        ;
        let score = fit as i128 + two + board + role + traits + bonus - (sell as i128) * (
        rules.sell_cost_penalty_per_gold as i128);
        (score, sell)
    }

    /// Why `unit` may hold `item`.
    #[verifier::rlimit(40)]
    fn unit_reasons(
        unit: &HolderUnit,
        champion: &ChampionCapability,
        item: &ItemValueProfile,
        holder_role: HolderRole,
        context: &HolderScoringContext,
        overrides: &WorkhorseOverrides,
        synthesized: bool,
    ) -> (r: Vec<String>)
        ensures
            views(r@) == holder_reasons(
                *unit,
                *champion,
                *item,
                holder_role,
                views(context.active_trait_ids@),
                overrides.overrides@,
                synthesized,
            ),
    {
        let mut name_fit = cat(champion.name.as_str(), "适配");
        push_str(&mut name_fit, item.name.as_str());
        let mut reasons: Vec<String> = Vec::new();
        let ghost nf = name_fit@;
        push_text(&mut reasons, name_fit);
        let ghost r0 = views(reasons@);
        assert(r0 =~= seq![nf]);
        if synthesized {
            push_text(&mut reasons, owned("装备席散件可合成"));
        }
        let ghost r1 = views(reasons@);
        assert(r1 == r0 + opt_text(synthesized, "装备席散件可合成"@));
        if unit.star_level >= 2 {
            push_text(&mut reasons, owned("二星质量可先稳血"));
        }
        let ghost r2 = views(reasons@);
        assert(r2 == r1 + opt_text(unit.star_level >= 2, "二星质量可先稳血"@));
        if unit.source == HolderUnitSource::Board {
            push_text(&mut reasons, owned("当前已上场"));
        } else {
            push_text(&mut reasons, owned("备战席可上场承载"));
        }
        let ghost r3 = views(reasons@);
        assert(r3 == r2 + seq![
            if unit.source == HolderUnitSource::Board {
                "当前已上场"@
            } else {
                "备战席可上场承载"@
            },
        ]);
        let fits = role_matches_holder(champion, holder_role);
        if fits {
            push_text(&mut reasons, role_reason_text(holder_role));
        }
        let ghost r4 = views(reasons@);
        assert(r4 == r3 + opt_text(fits, role_reason(holder_role)));
        let m = matched_traits(&champion.traits, &context.active_trait_ids);
        if m > 0 {
            push_text(&mut reasons, owned("当前羁绊有贡献"));
        }
        let ghost r5 = views(reasons@);
        assert(r5 == r4 + opt_text(m > 0, "当前羁绊有贡献"@));
        match find_override(overrides, unit.hero_id.as_str(), holder_role) {
            Some(o) => {
                if !o.notes.as_str().is_empty() {
                    push_text(&mut reasons, o.notes.clone());
                }
                assert(views(reasons@) == r5 + opt_text(o.notes@.len() > 0, o.notes@));
            },
            None => {
                assert(views(reasons@) == r5 + Seq::<Seq<char>>::empty());
            },
        }
        reasons
    }

    /// The advice for `unit` (whose hero is `champion`) as holder of `item`.
    fn candidate_for_unit(
        unit: &HolderUnit,
        champion: &ChampionCapability,
        item: &ItemValueProfile,
        holder_role: HolderRole,
        context: &HolderScoringContext,
        champions: &[ChampionCapability],
        rules: &HolderRules,
        overrides: &WorkhorseOverrides,
        synthesized: bool,
    ) -> (r: HolderRecommendation)
        requires
            champion_for(champions@, unit.hero_id@) == Some(*champion),
            holder_fits(champions@, *rules, overrides.overrides@),
        ensures
            r@ == holder_rec(
                *unit,
                *champion,
                *item,
                holder_role,
                *context,
                champions@,
                *rules,
                overrides.overrides@,
                synthesized,
            ),
    {
        let (score, sell) = Self::score_unit(unit, champion, item, holder_role, context, champions, rules, overrides);
        let mut reasons = Self::unit_reasons(unit, champion, item, holder_role, context, overrides, synthesized);
        let decision = BenchTransitionScorer::score_for_candidate(
            item.item_id.as_str(),
            unit,
            &context.board_units,
            &context.bench_units,
            &context.target_lineups,
            champions,
            holder_role,
        );
        let ghost base = views(reasons@);
        let mut final_holder_id: Option<String> = None;
        let mut final_holder_name: Option<String> = None;
        let mut action = HolderAction::EquipNow;
        let mut holder_id = unit.hero_id.clone();
        let mut holder_name = champion.name.clone();
        let mut sell_cost = sell;
        match &decision {
            Some(d) => {
                final_holder_id = Some(d.final_holder_id.clone());
                final_holder_name = Some(d.final_holder_name.clone());
                let available = crate::bench_transition_scorer::any_unit(&context.bench_units, d.final_holder_id.as_str())
                    || crate::bench_transition_scorer::any_unit(&context.board_units, d.final_holder_id.as_str());
                if available && !str_eq(unit.hero_id.as_str(), d.final_holder_id.as_str()) {
                    let target = find_champion(champions, d.final_holder_id.as_str());
                    let target_score: i32 = match target {
                        Some(tc) => ChampionItemFitScorer::score_item(tc, item),
                        None => 0,
                    };
                    if unit.star_level <= 1 || target_score as i128 + rules.wait_score_gap as i128 >= score {
                        action = HolderAction::WaitForTarget;
                        append_texts(&mut reasons, &d.reasons);
                        match target {
                            Some(tc) => {
                                holder_id = tc.hero_id.clone();
                                holder_name = tc.name.clone();
                                sell_cost = 0;
                            },
                            None => {},
                        }
                    }
                }
            },
            None => {},
        }
        let clamped: i128 = if score < 0 {
            0
        } else if score > 140 {
            140
        } else {
            score
        };
        HolderRecommendation {
            item_id: item.item_id.clone(),
            item_name: item.name.clone(),
            temporary_holder_id: holder_id,
            temporary_holder_name: holder_name,
            holder_role,
            final_holder_id,
            final_holder_name,
            score: clamped as i32,
            sell_cost,
            action,
            reasons,
        }
    }
}

fn append_texts(v: &mut Vec<String>, more: &Vec<String>)
    ensures
        views(final(v)@) == views(old(v)@) + views(more@),
{
    let ghost before = views(v@);
    let mut k: usize = 0;
    while k < more.len()
        invariant
            k <= more@.len(),
            views(v@) == before + views(more@).subrange(0, k as int),
        decreases more@.len() - k,
    {
        push_text(v, more[k].clone());
        assert(views(more@).subrange(0, k + 1) =~= views(more@).subrange(0, k as int).push(more@[k as int]@));
        k = k + 1;
    }
    assert(views(more@).subrange(0, k as int) =~= views(more@));
}

/// The advice by decreasing score, equal scores in their order.
fn sort_recs(recs: Vec<HolderRecommendation>) -> (r: Vec<HolderRecommendation>)
    ensures
        sorted_recs(rec_views(recs@), rec_views(r@)),
{
    let ghost rv = rec_views(recs@);
    let ghost kv = rv.map_values(|x: RecView| rec_key(x));
    let mut keys: Vec<Key3> = Vec::new();
    let mut i: usize = 0;
    while i < recs.len()
        invariant
            rv == rec_views(recs@),
            kv == rv.map_values(|x: RecView| rec_key(x)),
            i <= recs@.len(),
            keys@ == kv.subrange(0, i as int),
        decreases recs@.len() - i,
    {
        let k: Key3 = (-(recs[i].score as i64), 0, 0);
        keys.push(k);
        proof {
            assert(rv[i as int] == recs@[i as int]@);
        }
        i = i + 1;
        assert(keys@ =~= kv.subrange(0, i as int));
    }
    assert(kv.subrange(0, i as int) =~= kv);
    let idx = stable_order(&keys);
    let mut r: Vec<HolderRecommendation> = Vec::new();
    let mut t: usize = 0;
    while t < idx.len()
        invariant
            rv == rec_views(recs@),
            is_permutation(idx@, recs@.len()),
            t <= idx@.len(),
            r@.len() == t,
            forall|q: int| 0 <= q < t ==> (#[trigger] r@[q])@ == rv[idx@[q] as int],
        decreases idx@.len() - t,
    {
        r.push(clone_rec(&recs[idx[t]]));
        t = t + 1;
    }
    proof {
        let out = rec_views(r@);
        assert forall|q: int| 0 <= q < out.len() implies #[trigger] out[q] == rv[idx@[q] as int] by {
            assert(out[q] == r@[q]@);
        }
        assert(sorted_recs(rv, out));
    }
    r
}

impl HolderScorer {
    /// Adds the advice for `unit` when it holds fewer than three items and
    /// its hero is known.
    fn push_candidate(
        out: &mut Vec<HolderRecommendation>,
        unit: &HolderUnit,
        item: &ItemValueProfile,
        holder_role: HolderRole,
        context: &HolderScoringContext,
        champions: &[ChampionCapability],
        rules: &HolderRules,
        overrides: &WorkhorseOverrides,
        synthesized: bool,
        Ghost(k): Ghost<int>,
    )
        requires
            holder_fits(champions@, *rules, overrides.overrides@),
            0 <= k < (context.board_units@ + context.bench_units@).len(),
            (context.board_units@ + context.bench_units@)[k] == *unit,
            forall|j: int| 0 <= j < rec_views(old(out)@).len() ==> advice_ok(#[trigger] rec_views(old(out)@)[j], *context),
        ensures
            forall|j: int| 0 <= j < rec_views(final(out)@).len() ==> advice_ok(#[trigger] rec_views(final(out)@)[j], *context),
            rec_views(final(out)@) == (if unit.item_ids@.len() >= 3 {
                rec_views(old(out)@)
            } else {
                match champion_for(champions@, unit.hero_id@) {
                    Some(c) => rec_views(old(out)@).push(
                        holder_rec(*unit, c, *item, holder_role, *context, champions@, *rules, overrides.overrides@, synthesized),
                    ),
                    None => rec_views(old(out)@),
                }
            }),
    {
        if unit.item_ids.len() < 3 {
            match find_champion(champions, unit.hero_id.as_str()) {
                Some(champion) => {
                    let rec = Self::candidate_for_unit(
                        unit,
                        champion,
                        item,
                        holder_role,
                        context,
                        champions,
                        rules,
                        overrides,
                        synthesized,
                    );
                    let ghost before = rec_views(out@);
                    out.push(rec);
                    assert(rec_views(out@) =~= before.push(rec@));
                    proof {
                        lemma_holder_rec_ok(k, *champion, *item, holder_role, *context, champions@, *rules, overrides.overrides@, synthesized);
                        assert forall|j: int| 0 <= j < rec_views(out@).len() implies advice_ok(#[trigger] rec_views(out@)[j], *context) by {
                            if j < before.len() {
                                assert(rec_views(out@)[j] == before[j]);
                            }
                        }
                    }
                },
                None => {},
            }
        }
    }

    /// The advice for every board and bench unit that can hold `item`, by
    /// decreasing score.
    fn candidates_for_item(
        item: &ItemValueProfile,
        holder_role: HolderRole,
        context: &HolderScoringContext,
        champions: &[ChampionCapability],
        rules: &HolderRules,
        overrides: &WorkhorseOverrides,
        synthesized: bool,
    ) -> (r: Vec<HolderRecommendation>)
        requires
            holder_fits(champions@, *rules, overrides.overrides@),
        ensures
            sorted_recs(
                unit_recs(
                    context.board_units@ + context.bench_units@,
                    *item,
                    holder_role,
                    *context,
                    champions@,
                    *rules,
                    overrides.overrides@,
                    synthesized,
                ),
                rec_views(r@),
            ),
            forall|q: int| 0 <= q < rec_views(r@).len() ==> advice_ok(#[trigger] rec_views(r@)[q], *context),
    {
        let ghost board = context.board_units@;
        let ghost units = context.board_units@ + context.bench_units@;
        let mut out: Vec<HolderRecommendation> = Vec::new();
        let mut i: usize = 0;
        while i < context.board_units.len()
            invariant
                board == context.board_units@,
                units == context.board_units@ + context.bench_units@,
                holder_fits(champions@, *rules, overrides.overrides@),
                i <= board.len(),
                forall|q: int| 0 <= q < rec_views(out@).len() ==> advice_ok(#[trigger] rec_views(out@)[q], *context),
                rec_views(out@) == unit_recs(
                    board.subrange(0, i as int),
                    *item,
                    holder_role,
                    *context,
                    champions@,
                    *rules,
                    overrides.overrides@,
                    synthesized,
                ),
            decreases board.len() - i,
        {
            assert(board.subrange(0, i + 1).drop_last() =~= board.subrange(0, i as int));
            let unit = &context.board_units[i];
            assert(units[i as int] == board[i as int]);
            Self::push_candidate(&mut out, unit, item, holder_role, context, champions, rules, overrides, synthesized, Ghost(i as int));
            i = i + 1;
        }
        assert(board.subrange(0, i as int) =~= board);
        assert(units.subrange(0, board.len() as int) =~= board);
        let mut j: usize = 0;
        while j < context.bench_units.len()
            invariant
                board == context.board_units@,
                units == context.board_units@ + context.bench_units@,
                holder_fits(champions@, *rules, overrides.overrides@),
                j <= context.bench_units@.len(),
                forall|q: int| 0 <= q < rec_views(out@).len() ==> advice_ok(#[trigger] rec_views(out@)[q], *context),
                rec_views(out@) == unit_recs(
                    units.subrange(0, board.len() + j),
                    *item,
                    holder_role,
                    *context,
                    champions@,
                    *rules,
                    overrides.overrides@,
                    synthesized,
                ),
            decreases context.bench_units@.len() - j,
        {
            assert(units.subrange(0, board.len() + j + 1).drop_last() =~= units.subrange(0, board.len() + j));
            assert(units.subrange(0, board.len() + j + 1).last() == context.bench_units@[j as int]);
            let unit = &context.bench_units[j];
            assert(units[board.len() + j] == context.bench_units@[j as int]);
            Self::push_candidate(
                &mut out,
                unit,
                item,
                holder_role,
                context,
                champions,
                rules,
                overrides,
                synthesized,
                Ghost(board.len() + j),
            );
            j = j + 1;
        }
        assert(units.subrange(0, board.len() + j) =~= units);
        let r = sort_recs(out);
        proof {
            lemma_sorted_advice(rec_views(out@), rec_views(r@), *context);
        }
        r
    }
}

// ---------------------------------------------------------------------------
// Plans
// ---------------------------------------------------------------------------

pub struct PlanView {
    pub best: Option<RecView>,
    pub alternatives: Seq<RecView>,
    pub summary: Seq<char>,
}

impl View for HolderPlan {
    type V = PlanView;

    open spec fn view(&self) -> PlanView {
        PlanView {
            best: match self.best {
                Some(b) => Some(b@),
                None => None,
            },
            alternatives: rec_views(self.alternatives@),
            summary: self.summary@,
        }
    }
}

/// The item profile with id `id`: the last one listed with it, as a map
/// collected from the list keeps.
pub open spec fn item_for(items: Seq<ItemValueProfile>, id: Seq<char>) -> Option<ItemValueProfile>
    decreases items.len(),
{
    if items.len() == 0 {
        None
    } else if items.last().item_id@ == id {
        Some(items.last())
    } else {
        item_for(items.drop_last(), id)
    }
}

/// The profile of each completed item on hand, in order (ids without a
/// profile left out).
pub open spec fn held_items(ids: Seq<String>, items: Seq<ItemValueProfile>) -> Seq<(ItemValueProfile, bool)>
    decreases ids.len(),
{
    if ids.len() == 0 {
        seq![]
    } else {
        let rest = held_items(ids.drop_last(), items);
        match item_for(items, ids.last()@) {
            Some(it) => rest.push((it, false)),
            None => rest,
        }
    }
}

/// The completed-type items not on hand that the components on hand build,
/// in list order.
pub open spec fn buildable_items(
    items: Seq<ItemValueProfile>,
    completed: Seq<Seq<char>>,
    components: Seq<Seq<char>>,
    routes: Seq<(Seq<char>, Seq<Seq<char>>)>,
) -> Seq<(ItemValueProfile, bool)>
    decreases items.len(),
{
    if items.len() == 0 {
        seq![]
    } else {
        let rest = buildable_items(items.drop_last(), completed, components, routes);
        let it = items.last();
        if !completed.contains(it.item_id@) && it.item_type@ == "成型装备"@ && synthesizable(
            routes,
            it.item_id@,
            components,
        ) {
            rest.push((it, true))
        } else {
            rest
        }
    }
}

/// The items to place, each marked when only its components are on hand.
pub open spec fn candidate_items(
    ctx: HolderScoringContext,
    items: Seq<ItemValueProfile>,
    routes: Option<Seq<(Seq<char>, Seq<Seq<char>>)>>,
) -> Seq<(ItemValueProfile, bool)> {
    held_items(ctx.completed_item_ids@, items) + match routes {
        Some(r) => buildable_items(items, views(ctx.completed_item_ids@), views(ctx.component_item_ids@), r),
        None => seq![],
    }
}

/// The advice for each item in turn, each item's advice by decreasing score.
pub open spec fn item_recs(
    cands: Seq<(ItemValueProfile, bool)>,
    ctx: HolderScoringContext,
    champs: Seq<ChampionCapability>,
    rules: HolderRules,
    overrides: Seq<(String, WorkhorseOverride)>,
) -> Seq<RecView>
    decreases cands.len(),
{
    if cands.len() == 0 {
        seq![]
    } else {
        let (it, syn) = cands.last();
        let role = holder_role_spec(it.item_id@, views(it.effect_tags@), views(it.damage_type_fit@), ctx.target_lineups@);
        item_recs(cands.drop_last(), ctx, champs, rules, overrides) + by_score(
            unit_recs(ctx.board_units@ + ctx.bench_units@, it, role, ctx, champs, rules, overrides, syn),
        )
    }
}

/// The one-line summary of advice.
pub open spec fn summary_text(r: RecView) -> Seq<char> {
    match r.action {
        HolderAction::EquipNow => "合"@ + r.item_name + "，给"@ + r.temporary_holder_name + match r.final_holder_name {
            Some(n) => "，后续给"@ + n,
            None => ""@,
        },
        HolderAction::WaitForTarget => "先留"@ + r.item_name + "，等"@ + match r.final_holder_name {
            Some(n) => n,
            None => r.temporary_holder_name,
        },
    }
}

/// The plan made of advice sorted by score: the first as best, the next
/// three as alternatives.
pub open spec fn plan_from(sorted: Seq<RecView>) -> PlanView {
    PlanView {
        best: if sorted.len() > 0 {
            Some(sorted[0])
        } else {
            None
        },
        alternatives: if sorted.len() <= 1 {
            seq![]
        } else if sorted.len() <= 4 {
            sorted.subrange(1, sorted.len() as int)
        } else {
            sorted.subrange(1, 4)
        },
        summary: if sorted.len() > 0 {
            summary_text(sorted[0])
        } else {
            "暂无可用承载者"@
        },
    }
}

/// A plan holds only advice a plan may hold, at most three alternatives,
/// and no alternative scoring above the best advice.
pub open spec fn plan_ok(p: PlanView, ctx: HolderScoringContext) -> bool {
    &&& p.alternatives.len() <= 3
    &&& p.alternatives.len() > 0 ==> p.best is Some
    &&& match p.best {
        Some(b) => advice_ok(b, ctx) && forall|q: int|
            0 <= q < p.alternatives.len() ==> #[trigger] p.alternatives[q].score <= b.score,
        None => true,
    }
    &&& forall|q: int| 0 <= q < p.alternatives.len() ==> advice_ok(#[trigger] p.alternatives[q], ctx)
}

/// The holder plan for a context.
pub open spec fn holder_plan(
    ctx: HolderScoringContext,
    champs: Seq<ChampionCapability>,
    items: Seq<ItemValueProfile>,
    rules: HolderRules,
    overrides: Seq<(String, WorkhorseOverride)>,
    routes: Option<Seq<(Seq<char>, Seq<Seq<char>>)>>,
) -> PlanView {
    plan_from(by_score(item_recs(candidate_items(ctx, items, routes), ctx, champs, rules, overrides)))
}

fn find_item<'a>(items: &'a [ItemValueProfile], id: &str) -> (r: Option<&'a ItemValueProfile>)
    ensures
        match r {
            Some(it) => item_for(items@, id@) == Some(*it),
            None => item_for(items@, id@) is None,
        },
{
    let ghost iv = items@;
    let mut k: usize = items.len();
    assert(iv.subrange(0, k as int) =~= iv);
    while k > 0
        invariant
            iv == items@,
            k <= iv.len(),
            item_for(iv, id@) == item_for(iv.subrange(0, k as int), id@),
        decreases k,
    {
        let ghost pre = iv.subrange(0, k as int);
        assert(pre.drop_last() =~= iv.subrange(0, k - 1));
        assert(pre.last() == iv[k - 1]);
        if str_eq(items[k - 1].item_id.as_str(), id) {
            return Some(&items[k - 1]);
        }
        k = k - 1;
    }
    None
}

fn summary_of(r: &HolderRecommendation) -> (s: String)
    ensures
        s@ == summary_text(r@),
{
    match r.action {
        HolderAction::EquipNow => {
            let mut s = cat("合", r.item_name.as_str());
            push_str(&mut s, "，给");
            push_str(&mut s, r.temporary_holder_name.as_str());
            let ghost pre = s@;
            match &r.final_holder_name {
                Some(n) => {
                    push_str(&mut s, "，后续给");
                    push_str(&mut s, n.as_str());
                    assert(s@ =~= pre + ("，后续给"@ + n@));
                },
                None => {
                    proof {
                        reveal_strlit("");
                    }
                    assert(s@ =~= pre + ""@);
                },
            }
            s
        },
        HolderAction::WaitForTarget => {
            let mut s = cat("先留", r.item_name.as_str());
            push_str(&mut s, "，等");
            match &r.final_holder_name {
                Some(n) => push_str(&mut s, n.as_str()),
                None => push_str(&mut s, r.temporary_holder_name.as_str()),
            }
            s
        },
    }
}

impl HolderScorer {
    fn append_item_recs(
        all: &mut Vec<HolderRecommendation>,
        item: &ItemValueProfile,
        context: &HolderScoringContext,
        champions: &[ChampionCapability],
        rules: &HolderRules,
        overrides: &WorkhorseOverrides,
        synthesized: bool,
    )
        requires
            holder_fits(champions@, *rules, overrides.overrides@),
            forall|q: int| 0 <= q < rec_views(old(all)@).len() ==> advice_ok(#[trigger] rec_views(old(all)@)[q], *context),
        ensures
            forall|q: int| 0 <= q < rec_views(final(all)@).len() ==> advice_ok(#[trigger] rec_views(final(all)@)[q], *context),
            rec_views(final(all)@) == rec_views(old(all)@) + by_score(
                unit_recs(
                    context.board_units@ + context.bench_units@,
                    *item,
                    holder_role_spec(
                        item.item_id@,
                        views(item.effect_tags@),
                        views(item.damage_type_fit@),
                        context.target_lineups@,
                    ),
                    *context,
                    champions@,
                    *rules,
                    overrides.overrides@,
                    synthesized,
                ),
            ),
    {
        let role = infer_holder_role(
            item.item_id.as_str(),
            &item.effect_tags,
            &item.damage_type_fit,
            context.target_lineups.as_slice(),
        );
        let recs = Self::candidates_for_item(item, role, context, champions, rules, overrides, synthesized);
        proof {
            lemma_by_score(
                unit_recs(
                    context.board_units@ + context.bench_units@,
                    *item,
                    role,
                    *context,
                    champions@,
                    *rules,
                    overrides.overrides@,
                    synthesized,
                ),
                rec_views(recs@),
            );
        }
        let ghost before = rec_views(all@);
        let mut k: usize = 0;
        while k < recs.len()
            invariant
                k <= recs@.len(),
                rec_views(all@) == before + rec_views(recs@).subrange(0, k as int),
                forall|q: int| 0 <= q < before.len() ==> advice_ok(#[trigger] before[q], *context),
                forall|q: int| 0 <= q < rec_views(recs@).len() ==> advice_ok(#[trigger] rec_views(recs@)[q], *context),
                forall|q: int| 0 <= q < rec_views(all@).len() ==> advice_ok(#[trigger] rec_views(all@)[q], *context),
            decreases recs@.len() - k,
        {
            let ghost b = rec_views(all@);
            all.push(clone_rec(&recs[k]));
            assert(rec_views(all@) =~= b.push(recs@[k as int]@));
            assert(rec_views(recs@)[k as int] == recs@[k as int]@);
            assert forall|q: int| 0 <= q < rec_views(all@).len() implies advice_ok(#[trigger] rec_views(all@)[q], *context) by {
                if q < b.len() {
                    assert(rec_views(all@)[q] == b[q]);
                }
            }
            assert(rec_views(recs@).subrange(0, k + 1) =~= rec_views(recs@).subrange(0, k as int).push(
                recs@[k as int]@,
            ));
            k = k + 1;
        }
        assert(rec_views(recs@).subrange(0, k as int) =~= rec_views(recs@));
    }

    /// The plan for placing the completed items on hand (and, with a
    /// synthesis index, the items the components on hand build): every
    /// unit's advice by decreasing score, the first as best, the next three
    /// as alternatives.
    pub fn score_with_rules_and_synthesis(
        context: &HolderScoringContext,
        champions: &[ChampionCapability],
        items: &[ItemValueProfile],
        rules: &HolderRules,
        overrides: &WorkhorseOverrides,
        synthesis_index: Option<&ItemSynthesisIndex>,
    ) -> (r: HolderPlan)
        requires
            holder_fits(champions@, *rules, overrides.overrides@),
        ensures
            r@ == holder_plan(
                *context,
                champions@,
                items@,
                *rules,
                overrides.overrides@,
                match synthesis_index {
                    Some(ix) => Some(ix.routes_view()),
                    None => None,
                },
            ),
            plan_ok(r@, *context),
    {
        let ghost ids = context.completed_item_ids@;
        let mut all: Vec<HolderRecommendation> = Vec::new();
        let mut i: usize = 0;
        while i < context.completed_item_ids.len()
            invariant
                ids == context.completed_item_ids@,
                holder_fits(champions@, *rules, overrides.overrides@),
                i <= ids.len(),
                rec_views(all@) == item_recs(held_items(ids.subrange(0, i as int), items@), *context, champions@, *rules, overrides.overrides@),
                forall|q: int| 0 <= q < rec_views(all@).len() ==> advice_ok(#[trigger] rec_views(all@)[q], *context),
            decreases ids.len() - i,
        {
            assert(ids.subrange(0, i + 1).drop_last() =~= ids.subrange(0, i as int));
            match find_item(items, context.completed_item_ids[i].as_str()) {
                Some(it) => {
                    Self::append_item_recs(&mut all, it, context, champions, rules, overrides, false);
                    proof {
                        let h = held_items(ids.subrange(0, i as int), items@);
                        assert(held_items(ids.subrange(0, i + 1), items@) == h.push((*it, false)));
                        assert(h.push((*it, false)).drop_last() =~= h);
                    }
                },
                None => {},
            }
            i = i + 1;
        }
        assert(ids.subrange(0, i as int) =~= ids);
        let ghost held = held_items(ids, items@);
        match synthesis_index {
            Some(ix) => {
                let ghost iv = items@;
                let ghost completed = views(context.completed_item_ids@);
                let ghost components = views(context.component_item_ids@);
                let mut j: usize = 0;
                assert(held + buildable_items(iv.subrange(0, 0), completed, components, ix.routes_view()) =~= held);
                while j < items.len()
                    invariant
                        iv == items@,
                        held == held_items(context.completed_item_ids@, items@),
                        completed == views(context.completed_item_ids@),
                        components == views(context.component_item_ids@),
                        holder_fits(champions@, *rules, overrides.overrides@),
                        j <= iv.len(),
                        forall|q: int| 0 <= q < rec_views(all@).len() ==> advice_ok(#[trigger] rec_views(all@)[q], *context),
                        rec_views(all@) == item_recs(
                            held + buildable_items(iv.subrange(0, j as int), completed, components, ix.routes_view()),
                            *context,
                            champions@,
                            *rules,
                            overrides.overrides@,
                        ),
                    decreases iv.len() - j,
                {
                    assert(iv.subrange(0, j + 1).drop_last() =~= iv.subrange(0, j as int));
                    let it = &items[j];
                    let ghost b = buildable_items(iv.subrange(0, j as int), completed, components, ix.routes_view());
                    if !crate::text::list_has(&context.completed_item_ids, it.item_id.as_str()) && str_eq(
                        it.item_type.as_str(),
                        "成型装备",
                    ) && ix.can_synthesize(it.item_id.as_str(), context.component_item_ids.as_slice()) {
                        Self::append_item_recs(&mut all, it, context, champions, rules, overrides, true);
                        proof {
                            assert(held + b.push((*it, true)) =~= (held + b).push((*it, true)));
                            assert((held + b).push((*it, true)).drop_last() =~= held + b);
                        }
                    }
                    j = j + 1;
                }
                assert(iv.subrange(0, j as int) =~= iv);
            },
            None => {
                assert(held + Seq::<(ItemValueProfile, bool)>::empty() =~= held);
            },
        }
        let sorted = sort_recs(all);
        proof {
            lemma_by_score(rec_views(all@), rec_views(sorted@));
            lemma_sorted_advice(rec_views(all@), rec_views(sorted@), *context);
        }
        let n = sorted.len();
        let best = if n > 0 {
            Some(clone_rec(&sorted[0]))
        } else {
            None
        };
        let mut alternatives: Vec<HolderRecommendation> = Vec::new();
        let mut k: usize = 1;
        while k < n && k < 4
            invariant
                n == sorted@.len(),
                1 <= k <= 4,
                k <= n || n == 0,
                alternatives@.len() == if n == 0 { 0 } else { k - 1 },
                forall|q: int| 0 <= q < alternatives@.len() ==> (#[trigger] alternatives@[q])@ == sorted@[q + 1]@,
            decreases 4 - k,
        {
            alternatives.push(clone_rec(&sorted[k]));
            k = k + 1;
        }
        let summary = match &best {
            Some(b) => summary_of(b),
            None => owned("暂无可用承载者"),
        };
        let plan = HolderPlan { best, alternatives, summary };
        proof {
            let sv = rec_views(sorted@);
            assert forall|q: int| 0 <= q < sv.len() implies #[trigger] sv[q] == sorted@[q]@ by {}
            let p = plan_from(sv);
            if n > 1 {
                let hi: int = if n <= 4 { n as int } else { 4 };
                assert(rec_views(plan.alternatives@) =~= sv.subrange(1, hi));
            } else {
                assert(rec_views(plan.alternatives@) =~= Seq::<RecView>::empty());
            }
        }
        plan
    }
}

impl HolderScorer {
    /// The plan with the default rules and no overrides.
    pub fn score(context: &HolderScoringContext, champions: &[ChampionCapability], items: &[ItemValueProfile]) -> (r: HolderPlan)
        requires
            champions_fit(champions@),
        ensures
            exists|rules: HolderRules|
                rules.two_star_bonus == 18 && rules.board_bonus == 8 && rules.role_match_bonus == 16
                    && rules.trait_match_bonus == 4 && rules.wait_score_gap == 12 && rules.sell_cost_penalty_per_gold
                    == 2 && r@ == holder_plan(*context, champions@, items@, rules, seq![], None),
            plan_ok(r@, *context),
    {
        let rules = HolderRules::default();
        let overrides = WorkhorseOverrides { version: String::new(), overrides: Vec::new() };
        assert(overrides.overrides@ =~= seq![]);
        Self::score_with_rules_and_synthesis(context, champions, items, &rules, &overrides, None)
    }

    /// The plan with the default rules and no overrides, also placing the
    /// items that the components on hand build.
    pub fn score_with_synthesis_index(
        context: &HolderScoringContext,
        champions: &[ChampionCapability],
        items: &[ItemValueProfile],
        synthesis_index: &ItemSynthesisIndex,
    ) -> (r: HolderPlan)
        requires
            champions_fit(champions@),
        ensures
            exists|rules: HolderRules|
                rules.two_star_bonus == 18 && rules.board_bonus == 8 && rules.role_match_bonus == 16
                    && rules.trait_match_bonus == 4 && rules.wait_score_gap == 12 && rules.sell_cost_penalty_per_gold
                    == 2 && r@ == holder_plan(
                    *context,
                    champions@,
                    items@,
                    rules,
                    seq![],
                    Some(synthesis_index.routes_view()),
                ),
            plan_ok(r@, *context),
    {
        let rules = HolderRules::default();
        let overrides = WorkhorseOverrides { version: String::new(), overrides: Vec::new() };
        assert(overrides.overrides@ =~= seq![]);
        Self::score_with_rules_and_synthesis(context, champions, items, &rules, &overrides, Some(synthesis_index))
    }

    /// The plan with the given rules and overrides.
    pub fn score_with_rules(
        context: &HolderScoringContext,
        champions: &[ChampionCapability],
        items: &[ItemValueProfile],
        rules: &HolderRules,
        overrides: &WorkhorseOverrides,
    ) -> (r: HolderPlan)
        requires
            holder_fits(champions@, *rules, overrides.overrides@),
        ensures
            r@ == holder_plan(*context, champions@, items@, *rules, overrides.overrides@, None),
            plan_ok(r@, *context),
    {
        Self::score_with_rules_and_synthesis(context, champions, items, rules, overrides, None)
    }
}

} // verus!
