//! Bench transitions: which hero of the target lineups finally holds an item,
//! what the current temporary holder costs to sell, and whether the item
//! should wait for its final holder.
use vstd::prelude::*;
use crate::holder_scorer::{HolderRole, HolderUnit};
use crate::knowledge_types::{ChampionCapability, ChampionRole};
use crate::rule_types::LineupProfile;
use crate::text::{list_has, owned, str_eq, views};

verus! {

/// Where an item should go, and whether to wait for that hero.
#[derive(Debug, Clone)]
pub struct BenchTransitionDecision {
    pub item_id: String,
    pub final_holder_id: String,
    pub final_holder_name: String,
    pub current_sell_cost: i32,
    pub should_wait_for_target: bool,
    pub reasons: Vec<String>,
}

pub struct TransitionView {
    pub item_id: Seq<char>,
    pub final_holder_id: Seq<char>,
    pub final_holder_name: Seq<char>,
    pub current_sell_cost: i32,
    pub should_wait_for_target: bool,
    pub reasons: Seq<Seq<char>>,
}

impl View for BenchTransitionDecision {
    type V = TransitionView;

    open spec fn view(&self) -> TransitionView {
        TransitionView {
            item_id: self.item_id@,
            final_holder_id: self.final_holder_id@,
            final_holder_name: self.final_holder_name@,
            current_sell_cost: self.current_sell_cost,
            should_wait_for_target: self.should_wait_for_target,
            reasons: views(self.reasons@),
        }
    }
}

/// Scores bench transitions.
pub struct BenchTransitionScorer;

// ---------------------------------------------------------------------------
// Model
// ---------------------------------------------------------------------------

/// The hero with id `id`: the last one listed with it, as a map collected
/// from the list keeps.
pub open spec fn champion_for(champs: Seq<ChampionCapability>, id: Seq<char>) -> Option<ChampionCapability>
    decreases champs.len(),
{
    if champs.len() == 0 {
        None
    } else if champs.last().hero_id@ == id {
        Some(champs.last())
    } else {
        champion_for(champs.drop_last(), id)
    }
}

/// Costs stay small enough for a three-star sell price to fit in an `i32`.
pub open spec fn costs_fit(champs: Seq<ChampionCapability>) -> bool {
    forall|i: int| 0 <= i < champs.len() ==> #[trigger] champs[i].cost <= 238_609_294
}

/// Copies of a unit a star level stands for: 1, 3 or 9.
pub open spec fn star_factor(star_level: i32) -> int {
    if star_level <= 1 {
        1
    } else if star_level == 2 {
        3
    } else {
        9
    }
}

/// Gold a unit sells for: its hero's cost (at least 1, and 1 for an unknown
/// hero) times the copies its star level stands for.
pub open spec fn transfer_cost(u: HolderUnit, champs: Seq<ChampionCapability>) -> int {
    let base = match champion_for(champs, u.hero_id@) {
        Some(c) => if c.cost > 1 {
            c.cost as int
        } else {
            1
        },
        None => 1,
    };
    base * star_factor(u.star_level)
}

/// The heroes of a lineup that finally hold items of a role.
pub open spec fn preferred_heroes(p: LineupProfile, role: HolderRole) -> Seq<String> {
    match role {
        HolderRole::Carry => p.carry_hero_ids@,
        HolderRole::Tank => p.tank_hero_ids@,
        HolderRole::Utility => p.final_hero_ids@,
    }
}

/// The first preferred hero of the first target lineup that has one.
pub open spec fn final_holder_spec(lineups: Seq<LineupProfile>, role: HolderRole) -> Option<Seq<char>>
    decreases lineups.len(),
{
    if lineups.len() == 0 {
        None
    } else if preferred_heroes(lineups[0], role).len() > 0 {
        Some(preferred_heroes(lineups[0], role)[0]@)
    } else {
        final_holder_spec(lineups.drop_first(), role)
    }
}

/// Some unit of `units` is hero `id`.
pub open spec fn has_unit(units: Seq<HolderUnit>, id: Seq<char>) -> bool {
    exists|i: int| 0 <= i < units.len() && (#[trigger] units[i]).hero_id@ == id
}

/// The reason given for a transition.
pub open spec fn transition_reason(on_bench: bool, on_board: bool, low_value: bool) -> Seq<char> {
    if on_bench {
        "目标主C已在备战席，保留装备给最终承载者"@
    } else if on_board {
        "目标承载者已上场，优先直接给目标棋子"@
    } else if low_value {
        "当前临时承载者星级低，等待目标棋子收益更高"@
    } else {
        "目标棋子未到，当前承载者可先稳血"@
    }
}

/// The transition of an item whose current holder sells for `sell_cost`
/// and is low value when `low_value`: toward the final holder of the role,
/// when that hero is known.
pub open spec fn transition_spec(
    item_id: Seq<char>,
    board: Seq<HolderUnit>,
    bench: Seq<HolderUnit>,
    lineups: Seq<LineupProfile>,
    champs: Seq<ChampionCapability>,
    role: HolderRole,
    sell_cost: int,
    low_value: bool,
) -> Option<TransitionView> {
    match final_holder_spec(lineups, role) {
        None => None,
        Some(fid) => match champion_for(champs, fid) {
            None => None,
            Some(fh) => {
                let on_bench = has_unit(bench, fid);
                let on_board = has_unit(board, fid);
                Some(
                    TransitionView {
                        item_id,
                        final_holder_id: fid,
                        final_holder_name: fh.name@,
                        current_sell_cost: sell_cost as i32,
                        should_wait_for_target: on_bench || on_board || low_value,
                        reasons: seq![transition_reason(on_bench, on_board, low_value)],
                    },
                )
            },
        },
    }
}

/// The board unit that sells for most, the last of equal ones.
pub open spec fn priciest_unit(board: Seq<HolderUnit>, champs: Seq<ChampionCapability>) -> Option<HolderUnit>
    decreases board.len(),
{
    if board.len() == 0 {
        None
    } else {
        let u = board.last();
        match priciest_unit(board.drop_last(), champs) {
            Some(b) => if transfer_cost(u, champs) >= transfer_cost(b, champs) {
                Some(u)
            } else {
                Some(b)
            },
            None => Some(u),
        }
    }
}

/// A hero fits the holder role: a carry or backline hero for carry items, a
/// tank, frontline or tank-profile hero for tank items, any hero for
/// utility items.
pub open spec fn fits_role(c: ChampionCapability, role: HolderRole) -> bool {
    match role {
        HolderRole::Carry => c.role == ChampionRole::PrimaryCarry || c.role == ChampionRole::SecondaryCarry
            || c.position_role@ == "backline"@,
        HolderRole::Tank => c.role == ChampionRole::MainTank || c.role == ChampionRole::OffTank
            || c.position_role@ == "frontline"@ || c.damage_profile@ == "tank"@,
        HolderRole::Utility => true,
    }
}

/// Some target lineup lists `item_id` among its tank items (`tank`) or core
/// items.
pub open spec fn listed_item(lineups: Seq<LineupProfile>, item_id: Seq<char>, tank: bool) -> bool {
    exists|i: int|
        0 <= i < lineups.len() && views(
            if tank {
                (#[trigger] lineups[i]).tank_equipment_ids@
            } else {
                lineups[i].core_equipment_ids@
            },
        ).contains(item_id)
}

/// An effect tag of survival items.
pub open spec fn is_survival_tag(t: Seq<char>) -> bool {
    t == "shield_survival"@ || t == "sustain"@ || t == "damage_reduction"@ || t == "aura_team_buff"@
}

/// The role of the hero that should hold an item: tank for the target
/// lineups' tank items, tank-fit items and survival items; carry for their
/// core items and physical or magic items; utility otherwise.
pub open spec fn holder_role_spec(
    item_id: Seq<char>,
    tags: Seq<Seq<char>>,
    damage_fit: Seq<Seq<char>>,
    lineups: Seq<LineupProfile>,
) -> HolderRole {
    if listed_item(lineups, item_id, true) || damage_fit.contains("tank"@) || exists|i: int|
        0 <= i < tags.len() && is_survival_tag(#[trigger] tags[i]) {
        HolderRole::Tank
    } else if listed_item(lineups, item_id, false) || damage_fit.contains("ad"@) || damage_fit.contains("ap"@) {
        HolderRole::Carry
    } else {
        HolderRole::Utility
    }
}

// ---------------------------------------------------------------------------
// Code
// ---------------------------------------------------------------------------

/// The hero with id `id`, the last one listed with it.
pub fn find_champion<'a>(champs: &'a [ChampionCapability], id: &str) -> (r: Option<&'a ChampionCapability>)
    ensures
        match r {
            Some(c) => champion_for(champs@, id@) == Some(*c),
            None => champion_for(champs@, id@) is None,
        },
{
    let ghost cv = champs@;
    let mut k: usize = champs.len();
    assert(cv.subrange(0, k as int) =~= cv);
    while k > 0
        invariant
            cv == champs@,
            k <= cv.len(),
            champion_for(cv, id@) == champion_for(cv.subrange(0, k as int), id@),
        decreases k,
    {
        let ghost pre = cv.subrange(0, k as int);
        assert(pre.drop_last() =~= cv.subrange(0, k - 1));
        assert(pre.last() == cv[k - 1]);
        if str_eq(champs[k - 1].hero_id.as_str(), id) {
            return Some(&champs[k - 1]);
        }
        k = k - 1;
    }
    None
}

fn star_multiplier(star_level: i32) -> (m: i32)
    ensures
        m == star_factor(star_level),
{
    if star_level <= 1 {
        1
    } else if star_level == 2 {
        3
    } else {
        9
    }
}

pub(crate) fn any_unit(units: &[HolderUnit], id: &str) -> (b: bool)
    ensures
        b == has_unit(units@, id@),
{
    let mut i: usize = 0;
    while i < units.len()
        invariant
            i <= units@.len(),
            forall|j: int| 0 <= j < i ==> units@[j].hero_id@ != id@,
        decreases units@.len() - i,
    {
        if str_eq(units[i].hero_id.as_str(), id) {
            return true;
        }
        i = i + 1;
    }
    false
}

fn reason_text(on_bench: bool, on_board: bool, low_value: bool) -> (s: String)
    ensures
        s@ == transition_reason(on_bench, on_board, low_value),
{
    if on_bench {
        owned("目标主C已在备战席，保留装备给最终承载者")
    } else if on_board {
        owned("目标承载者已上场，优先直接给目标棋子")
    } else if low_value {
        owned("当前临时承载者星级低，等待目标棋子收益更高")
    } else {
        owned("目标棋子未到，当前承载者可先稳血")
    }
}

impl BenchTransitionScorer {
    /// The hero that finally holds items of `holder_role`: the first
    /// preferred hero of the first target lineup that has one.
    pub fn final_holder_id(_item_id: &str, target_lineups: &[LineupProfile], holder_role: HolderRole) -> (r: Option<String>)
        ensures
            match r {
                Some(s) => final_holder_spec(target_lineups@, holder_role) == Some(s@),
                None => final_holder_spec(target_lineups@, holder_role) is None,
            },
    {
        let ghost lv = target_lineups@;
        let mut i: usize = 0;
        assert(lv.subrange(0, lv.len() as int) =~= lv);
        while i < target_lineups.len()
            invariant
                lv == target_lineups@,
                i <= lv.len(),
                final_holder_spec(lv, holder_role) == final_holder_spec(lv.subrange(i as int, lv.len() as int), holder_role),
            decreases lv.len() - i,
        {
            let ghost rest = lv.subrange(i as int, lv.len() as int);
            assert(rest[0] == lv[i as int]);
            assert(rest.drop_first() =~= lv.subrange(i + 1, lv.len() as int));
            let p = &target_lineups[i];
            let preferred = match holder_role {
                HolderRole::Carry => &p.carry_hero_ids,
                HolderRole::Tank => &p.tank_hero_ids,
                HolderRole::Utility => &p.final_hero_ids,
            };
            if preferred.len() > 0 {
                return Some(preferred[0].clone());
            }
            i = i + 1;
        }
        None
    }

    /// Gold a unit sells for.
    pub fn unit_transfer_cost(unit: &HolderUnit, champions: &[ChampionCapability]) -> (c: i32)
        requires
            costs_fit(champions@),
        ensures
            c == transfer_cost(*unit, champions@),
    {
        let base: i32 = match find_champion(champions, unit.hero_id.as_str()) {
            Some(c) => {
                proof {
                    lemma_found_cost_fits(champions@, unit.hero_id@);
                }
                if c.cost > 1 {
                    c.cost
                } else {
                    1
                }
            },
            None => 1,
        };
        base * star_multiplier(unit.star_level)
    }

    /// The transition of an item held by `candidate_unit`.
    pub fn score_for_candidate(
        item_id: &str,
        candidate_unit: &HolderUnit,
        board_units: &[HolderUnit],
        bench_units: &[HolderUnit],
        target_lineups: &[LineupProfile],
        champions: &[ChampionCapability],
        holder_role: HolderRole,
    ) -> (r: Option<BenchTransitionDecision>)
        requires
            costs_fit(champions@),
        ensures
            match r {
                Some(d) => transition_spec(
                    item_id@,
                    board_units@,
                    bench_units@,
                    target_lineups@,
                    champions@,
                    holder_role,
                    transfer_cost(*candidate_unit, champions@),
                    candidate_unit.star_level <= 1 && transfer_cost(*candidate_unit, champions@) <= 2,
                ) == Some(d@),
                None => transition_spec(
                    item_id@,
                    board_units@,
                    bench_units@,
                    target_lineups@,
                    champions@,
                    holder_role,
                    transfer_cost(*candidate_unit, champions@),
                    candidate_unit.star_level <= 1 && transfer_cost(*candidate_unit, champions@) <= 2,
                ) is None,
            },
    {
        let sell = Self::unit_transfer_cost(candidate_unit, champions);
        let low = candidate_unit.star_level <= 1 && sell <= 2;
        Self::decide(item_id, board_units, bench_units, target_lineups, champions, holder_role, sell, low)
    }

    /// The transition of an item held by the board unit that sells for
    /// most; with an empty board nothing is held and the holder counts as
    /// low value.
    pub fn score(
        item_id: &str,
        board_units: &[HolderUnit],
        bench_units: &[HolderUnit],
        target_lineups: &[LineupProfile],
        champions: &[ChampionCapability],
        holder_role: HolderRole,
    ) -> (r: Option<BenchTransitionDecision>)
        requires
            costs_fit(champions@),
        ensures
            ({
                let cur = priciest_unit(board_units@, champions@);
                let sell = match cur {
                    Some(u) => transfer_cost(u, champions@),
                    None => 0,
                };
                let low = match cur {
                    Some(u) => u.star_level <= 1 && sell <= 2,
                    None => true,
                };
                match r {
                    Some(d) => transition_spec(
                        item_id@,
                        board_units@,
                        bench_units@,
                        target_lineups@,
                        champions@,
                        holder_role,
                        sell,
                        low,
                    ) == Some(d@),
                    None => transition_spec(
                        item_id@,
                        board_units@,
                        bench_units@,
                        target_lineups@,
                        champions@,
                        holder_role,
                        sell,
                        low,
                    ) is None,
                }
            }),
    {
        let ghost bv = board_units@;
        let mut best: Option<usize> = None;
        let mut best_cost: i32 = 0;
        let mut i: usize = 0;
        while i < board_units.len()
            invariant
                bv == board_units@,
                costs_fit(champions@),
                i <= bv.len(),
                match best {
                    Some(b) => b < i && priciest_unit(bv.subrange(0, i as int), champions@) == Some(bv[b as int])
                        && best_cost == transfer_cost(bv[b as int], champions@),
                    None => i == 0 && priciest_unit(bv.subrange(0, i as int), champions@) is None,
                },
            decreases bv.len() - i,
        {
            assert(bv.subrange(0, i + 1).drop_last() =~= bv.subrange(0, i as int));
            assert(bv.subrange(0, i + 1).last() == bv[i as int]);
            let c = Self::unit_transfer_cost(&board_units[i], champions);
            match best {
                Some(_) => {
                    if c >= best_cost {
                        best = Some(i);
                        best_cost = c;
                    }
                },
                None => {
                    best = Some(i);
                    best_cost = c;
                },
            }
            i = i + 1;
        }
        assert(bv.subrange(0, i as int) =~= bv);
        let (sell, low) = match best {
            Some(b) => (best_cost, board_units[b].star_level <= 1 && best_cost <= 2),
            None => (0, true),
        };
        Self::decide(item_id, board_units, bench_units, target_lineups, champions, holder_role, sell, low)
    }

    fn decide(
        item_id: &str,
        board_units: &[HolderUnit],
        bench_units: &[HolderUnit],
        target_lineups: &[LineupProfile],
        champions: &[ChampionCapability],
        holder_role: HolderRole,
        sell: i32,
        low: bool,
    ) -> (r: Option<BenchTransitionDecision>)
        ensures
            match r {
                Some(d) => transition_spec(
                    item_id@,
                    board_units@,
                    bench_units@,
                    target_lineups@,
                    champions@,
                    holder_role,
                    sell as int,
                    low,
                ) == Some(d@),
                None => transition_spec(
                    item_id@,
                    board_units@,
                    bench_units@,
                    target_lineups@,
                    champions@,
                    holder_role,
                    sell as int,
                    low,
                ) is None,
            },
    {
        let fid = match Self::final_holder_id(item_id, target_lineups, holder_role) {
            Some(f) => f,
            None => {
                return None;
            },
        };
        let fh = match find_champion(champions, fid.as_str()) {
            Some(c) => c,
            None => {
                return None;
            },
        };
        let on_bench = any_unit(bench_units, fid.as_str());
        let on_board = any_unit(board_units, fid.as_str());
        let reasons = vec![reason_text(on_bench, on_board, low)];
        let d = BenchTransitionDecision {
            item_id: owned(item_id),
            final_holder_id: fid,
            final_holder_name: fh.name.clone(),
            current_sell_cost: sell,
            should_wait_for_target: on_bench || on_board || low,
            reasons,
        };
        assert(views(d.reasons@) =~= seq![transition_reason(on_bench, on_board, low)]);
        Some(d)
    }
}

pub(crate) proof fn lemma_found_cost_fits(champs: Seq<ChampionCapability>, id: Seq<char>)
    requires
        costs_fit(champs),
        champion_for(champs, id) is Some,
    ensures
        champion_for(champs, id)->0.cost <= 238_609_294,
    decreases champs.len(),
{
    if champs.last().hero_id@ != id {
        assert(costs_fit(champs.drop_last())) by {
            assert forall|i: int| 0 <= i < champs.drop_last().len() implies #[trigger] champs.drop_last()[i].cost
                <= 238_609_294 by {
                assert(champs.drop_last()[i] == champs[i]);
            }
        }
        lemma_found_cost_fits(champs.drop_last(), id);
    } else {
        assert(champs[champs.len() - 1].cost <= 238_609_294);
    }
}

/// The role of the hero that should hold an item.
pub fn infer_holder_role(
    item_id: &str,
    item_tags: &Vec<String>,
    item_damage_fit: &Vec<String>,
    target_lineups: &[LineupProfile],
) -> (r: HolderRole)
    ensures
        r == holder_role_spec(item_id@, views(item_tags@), views(item_damage_fit@), target_lineups@),
{
    if lists_item(target_lineups, item_id, true) || list_has(item_damage_fit, "tank") || any_survival_tag(
        item_tags,
    ) {
        return HolderRole::Tank;
    }
    if lists_item(target_lineups, item_id, false) || list_has(item_damage_fit, "ad") || list_has(
        item_damage_fit,
        "ap",
    ) {
        return HolderRole::Carry;
    }
    HolderRole::Utility
}

fn lists_item(lineups: &[LineupProfile], item_id: &str, tank: bool) -> (b: bool)
    ensures
        b == listed_item(lineups@, item_id@, tank),
{
    let mut i: usize = 0;
    while i < lineups.len()
        invariant
            i <= lineups@.len(),
            forall|j: int|
                0 <= j < i ==> !views(
                    if tank {
                        (#[trigger] lineups@[j]).tank_equipment_ids@
                    } else {
                        lineups@[j].core_equipment_ids@
                    },
                ).contains(item_id@),
        decreases lineups@.len() - i,
    {
        let ids = if tank {
            &lineups[i].tank_equipment_ids
        } else {
            &lineups[i].core_equipment_ids
        };
        if list_has(ids, item_id) {
            return true;
        }
        i = i + 1;
    }
    false
}

fn any_survival_tag(tags: &Vec<String>) -> (b: bool)
    ensures
        b == exists|i: int| 0 <= i < views(tags@).len() && is_survival_tag(#[trigger] views(tags@)[i]),
{
    let mut i: usize = 0;
    while i < tags.len()
        invariant
            i <= tags@.len(),
            forall|j: int| 0 <= j < i ==> !is_survival_tag(#[trigger] views(tags@)[j]),
        decreases tags@.len() - i,
    {
        let t = tags[i].as_str();
        assert(views(tags@)[i as int] == t@);
        if str_eq(t, "shield_survival") || str_eq(t, "sustain") || str_eq(t, "damage_reduction") || str_eq(
            t,
            "aura_team_buff",
        ) {
            return true;
        }
        i = i + 1;
    }
    false
}

/// Whether a hero fits the holder role.
pub fn role_matches_holder(champion: &ChampionCapability, role: HolderRole) -> (b: bool)
    ensures
        b == fits_role(*champion, role),
{
    match role {
        HolderRole::Carry => {
            matches!(champion.role, ChampionRole::PrimaryCarry | ChampionRole::SecondaryCarry) || str_eq(
                champion.position_role.as_str(),
                "backline",
            )
        },
        HolderRole::Tank => {
            matches!(champion.role, ChampionRole::MainTank | ChampionRole::OffTank) || str_eq(
                champion.position_role.as_str(),
                "frontline",
            ) || str_eq(champion.damage_profile.as_str(), "tank")
        },
        HolderRole::Utility => true,
    }
}

} // verus!
