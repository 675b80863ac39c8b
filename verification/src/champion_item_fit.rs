//! How well items suit a hero: a score from damage type, scaling stats, cast
//! pattern, position and risks, a tier from the score, and the impact of
//! missing core items.
use vstd::prelude::*;
use crate::data_types::EquipmentData;
use crate::item_conflict_scorer::{
    groups_listing, lemma_warnings_determined, ref_views, seq_views, sources_of_items, warnings_match, ConflictEnvironment,
    ConflictWarning, GroupView, ItemConflictScorer, WarningView,
};
use crate::knowledge_builders::{CapabilityView, ItemProfileView, StatView};
use crate::knowledge_types::{ChampionCapability, ItemPreferences, ItemValueProfile};
use crate::num::{clamp, clamp_i32, min_int};
use crate::order::is_permutation;
use crate::ranking::{stable_order, stably_sorted, Key3};
use crate::text::{cat, clone_strings, has_sub, join, joined, list_has, nat_to_text, owned, push_str, str_contains, str_eq, views};

verus! {

/// Suitability tier, best first.
#[derive(Debug, Clone, Copy, PartialEq, Eq, Structural)]
pub enum ItemTier {
    Core,
    Strong,
    Acceptable,
    Emergency,
    Bad,
}

/// How one item suits a hero.
#[derive(Debug, Clone)]
pub struct ChampionItemFit {
    pub item_id: String,
    pub item_name: String,
    /// 0-100.
    pub score: i32,
    pub tier: ItemTier,
    pub reasons: Vec<String>,
    pub penalties: Vec<String>,
}

/// Scores items for heroes.
pub struct ChampionItemFitScorer;

/// What missing core items cost.
#[derive(Debug, Clone)]
pub struct ItemGapImpact {
    pub core_missing_penalty: i32,
    pub alternatives: Vec<String>,
    pub should_pivot: bool,
    pub explanation: String,
}

/// Which components each completed item is made of.
#[derive(Debug, Clone, Default)]
pub struct ItemSynthesisIndex {
    /// Completed item id → component ids; a later entry for an id replaces
    /// an earlier one.
    pub routes: Vec<(String, Vec<String>)>,
}

/// Groups of items that can stand in for each other.
#[derive(Debug, Clone)]
pub struct ItemReplacementGroups {
    pub version: String,
    pub groups: Vec<(String, ReplacementGroup)>,
}

/// Items that can stand in for each other.
#[derive(Debug, Clone)]
pub struct ReplacementGroup {
    pub label: String,
    pub item_ids: Vec<String>,
    pub item_names: Vec<String>,
    pub items: Vec<String>,
    pub replaces_for: Vec<String>,
    pub notes: String,
}

/// Reads replacement groups.
pub struct ItemReplacementGroupLoader;

/// Per-hero item overrides.
#[derive(Debug, Clone)]
pub struct ChampionItemOverrides {
    pub version: String,
    pub overrides: Vec<(String, ChampionItemOverrideEntry)>,
}

/// An item override of one hero.
#[derive(Debug, Clone)]
pub struct ChampionItemOverrideEntry {
    pub item_strictness: Option<String>,
    pub notes: String,
}

/// Reads and applies item overrides.
pub struct ChampionItemOverrideLoader;

// ---------------------------------------------------------------------------
// Views
// ---------------------------------------------------------------------------

pub struct FitView {
    pub item_id: Seq<char>,
    pub item_name: Seq<char>,
    pub score: int,
    pub tier: ItemTier,
    pub reasons: Seq<Seq<char>>,
    pub penalties: Seq<Seq<char>>,
}

impl View for ChampionItemFit {
    type V = FitView;

    open spec fn view(&self) -> FitView {
        FitView {
            item_id: self.item_id@,
            item_name: self.item_name@,
            score: self.score as int,
            tier: self.tier,
            reasons: views(self.reasons@),
            penalties: views(self.penalties@),
        }
    }
}

pub struct GapView {
    pub core_missing_penalty: int,
    pub alternatives: Seq<Seq<char>>,
    pub should_pivot: bool,
    pub explanation: Seq<char>,
}

impl View for ItemGapImpact {
    type V = GapView;

    open spec fn view(&self) -> GapView {
        GapView {
            core_missing_penalty: self.core_missing_penalty as int,
            alternatives: views(self.alternatives@),
            should_pivot: self.should_pivot,
            explanation: self.explanation@,
        }
    }
}

pub open spec fn fit_views(f: Seq<ChampionItemFit>) -> Seq<FitView> {
    f.map_values(|x: ChampionItemFit| x@)
}

pub open spec fn item_views(i: Seq<ItemValueProfile>) -> Seq<ItemProfileView> {
    i.map_values(|x: ItemValueProfile| x@)
}

/// Position of a tier, best first.
pub open spec fn tier_rank(t: ItemTier) -> int {
    match t {
        ItemTier::Core => 0,
        ItemTier::Strong => 1,
        ItemTier::Acceptable => 2,
        ItemTier::Emergency => 3,
        ItemTier::Bad => 4,
    }
}

/// Tier of a score.
pub open spec fn tier_of(score: int) -> ItemTier {
    if score >= 75 {
        ItemTier::Core
    } else if score >= 60 {
        ItemTier::Strong
    } else if score >= 40 {
        ItemTier::Acceptable
    } else if score >= 25 {
        ItemTier::Emergency
    } else {
        ItemTier::Bad
    }
}

fn tier_for_score(score: i32) -> (t: ItemTier)
    ensures
        t == tier_of(score as int),
{
    if score >= 75 {
        ItemTier::Core
    } else if score >= 60 {
        ItemTier::Strong
    } else if score >= 40 {
        ItemTier::Acceptable
    } else if score >= 25 {
        ItemTier::Emergency
    } else {
        ItemTier::Bad
    }
}

// ---------------------------------------------------------------------------
// Synthesis
// ---------------------------------------------------------------------------

/// The components of the last route listed for `item`.
pub open spec fn route_of(routes: Seq<(Seq<char>, Seq<Seq<char>>)>, item: Seq<char>) -> Option<Seq<Seq<char>>>
    decreases routes.len(),
{
    if routes.len() == 0 {
        None
    } else if routes.last().0 == item {
        Some(routes.last().1)
    } else {
        route_of(routes.drop_last(), item)
    }
}

/// Number of occurrences of `x` in `s`.
pub open spec fn count_in(s: Seq<Seq<char>>, x: Seq<char>) -> nat
    decreases s.len(),
{
    if s.len() == 0 {
        0
    } else {
        count_in(s.drop_last(), x) + if s.last() == x {
            1nat
        } else {
            0nat
        }
    }
}

/// The components on hand cover the route, each as many times as it is
/// needed.
pub open spec fn covers(route: Seq<Seq<char>>, have: Seq<Seq<char>>) -> bool {
    forall|x: Seq<char>| count_in(route, x) <= count_in(have, x)
}

/// Whether `item` can be made from the components on hand.
pub open spec fn synthesizable(routes: Seq<(Seq<char>, Seq<Seq<char>>)>, item: Seq<char>, have: Seq<Seq<char>>) -> bool {
    match route_of(routes, item) {
        Some(r) => r.len() > 0 && covers(r, have),
        None => false,
    }
}

/// Components named by an item's recipe: the non-empty, non-`0` ones.
pub open spec fn recipe_components(e: EquipmentData) -> Seq<Seq<char>> {
    let a: Seq<Seq<char>> = if e.synthesis1@.len() > 0 && e.synthesis1@ != "0"@ {
        seq![e.synthesis1@]
    } else {
        seq![]
    };
    if e.synthesis2@.len() > 0 && e.synthesis2@ != "0"@ {
        a.push(e.synthesis2@)
    } else {
        a
    }
}

/// Routes of the completed items that have a recipe, in order.
pub open spec fn equipment_routes(es: Seq<EquipmentData>) -> Seq<(Seq<char>, Seq<Seq<char>>)>
    decreases es.len(),
{
    if es.len() == 0 {
        seq![]
    } else {
        let p = equipment_routes(es.drop_last());
        let e = es.last();
        if (e.is_completed || e.equip_type@ == "成型装备"@) && recipe_components(e).len() > 0 {
            p.push((e.id@, recipe_components(e)))
        } else {
            p
        }
    }
}

pub open spec fn route_table(t: Seq<(String, Vec<String>)>) -> Seq<(Seq<char>, Seq<Seq<char>>)> {
    t.map_values(|e: (String, Vec<String>)| (e.0@, views(e.1@)))
}

fn count_text(s: &[String], x: &str) -> (n: usize)
    ensures
        n == count_in(views(s@), x@),
{
    let ghost sv = views(s@);
    let mut n: usize = 0;
    let mut i: usize = 0;
    while i < s.len()
        invariant
            sv == views(s@),
            i <= sv.len(),
            n <= i,
            n == count_in(sv.subrange(0, i as int), x@),
        decreases sv.len() - i,
    {
        let ghost nxt = sv.subrange(0, i + 1);
        assert(nxt.drop_last() =~= sv.subrange(0, i as int));
        assert(nxt.last() == s@[i as int]@);
        if str_eq(s[i].as_str(), x) {
            n = n + 1;
        }
        i = i + 1;
    }
    assert(sv.subrange(0, i as int) =~= sv);
    n
}

proof fn lemma_count_positive(s: Seq<Seq<char>>, x: Seq<char>)
    requires
        count_in(s, x) > 0,
    ensures
        exists|k: int| 0 <= k < s.len() && s[k] == x,
    decreases s.len(),
{
    if s.last() != x {
        lemma_count_positive(s.drop_last(), x);
        let k = choose|k: int| 0 <= k < s.drop_last().len() && s.drop_last()[k] == x;
        assert(s[k] == x);
    } else {
        assert(s[s.len() - 1] == x);
    }
}

/// The item has a recipe worth indexing: it is completed or a formed item,
/// and names at least one real component.
pub open spec fn yields_route(e: EquipmentData) -> bool {
    (e.is_completed || e.equip_type@ == "成型装备"@) && recipe_components(e).len() > 0
}

/// The routes built from equipment are exactly the recipes of the completed
/// or formed items that name real components (neither empty nor `0`): each
/// route is such an item's id with its components, and each such item has
/// its route.
pub proof fn lemma_equipment_routes(es: Seq<EquipmentData>)
    ensures
        forall|k: int|
            0 <= k < equipment_routes(es).len() ==> exists|j: int|
                0 <= j < es.len() && yields_route(es[j]) && #[trigger] equipment_routes(es)[k] == (
                es[j].id@,
                recipe_components(es[j]),
            ),
        forall|j: int|
            0 <= j < es.len() && #[trigger] yields_route(es[j]) ==> exists|k: int|
                0 <= k < equipment_routes(es).len() && equipment_routes(es)[k] == (es[j].id@, recipe_components(es[j])),
    decreases es.len(),
{
    if es.len() > 0 {
        let p = equipment_routes(es.drop_last());
        let r = equipment_routes(es);
        lemma_equipment_routes(es.drop_last());
        assert forall|k: int| 0 <= k < r.len() implies exists|j: int|
            0 <= j < es.len() && yields_route(es[j]) && #[trigger] r[k] == (es[j].id@, recipe_components(es[j])) by {
            if k < p.len() {
                assert(r[k] == p[k]);
                let j = choose|j: int|
                    0 <= j < es.drop_last().len() && yields_route(es.drop_last()[j]) && p[k] == (
                    es.drop_last()[j].id@,
                    recipe_components(es.drop_last()[j]),
                );
                assert(es[j] == es.drop_last()[j]);
            } else {
                assert(es[es.len() - 1] == es.last());
            }
        }
        assert forall|j: int| 0 <= j < es.len() && #[trigger] yields_route(es[j]) implies exists|k: int|
            0 <= k < r.len() && r[k] == (es[j].id@, recipe_components(es[j])) by {
            if j < es.len() - 1 {
                assert(es.drop_last()[j] == es[j]);
                assert(yields_route(es.drop_last()[j]));
                let k = choose|k: int|
                    0 <= k < p.len() && p[k] == (es.drop_last()[j].id@, recipe_components(es.drop_last()[j]));
                assert(r[k] == p[k]);
            } else {
                assert(r[p.len() as int] == (es.last().id@, recipe_components(es.last())));
            }
        }
    }
}

proof fn lemma_route_of_unique(routes: Seq<(Seq<char>, Seq<Seq<char>>)>, item: Seq<char>)
    requires
        forall|i: int, j: int| 0 <= i < j < routes.len() ==> routes[i].0 != routes[j].0,
    ensures
        route_of(routes, item) is None <==> forall|k: int| 0 <= k < routes.len() ==> routes[k].0 != item,
        forall|k: int| 0 <= k < routes.len() && routes[k].0 == item ==> route_of(routes, item) == Some(routes[k].1),
    decreases routes.len(),
{
    if routes.len() > 0 {
        let p = routes.drop_last();
        assert forall|i: int, j: int| 0 <= i < j < p.len() implies p[i].0 != p[j].0 by {
            assert(p[i] == routes[i] && p[j] == routes[j]);
        }
        lemma_route_of_unique(p, item);
        assert forall|k: int| 0 <= k < p.len() implies p[k] == routes[k] by {}
        if routes.last().0 != item {
            assert forall|k: int| 0 <= k < routes.len() && routes[k].0 == item implies route_of(routes, item)
                == Some(routes[k].1) by {
                assert(k < routes.len() - 1);
                assert(p[k] == routes[k]);
            }
        } else {
            assert(routes[routes.len() - 1].0 == item);
        }
    }
}

/// With one route per item, an item can be made exactly when a route is
/// listed for it, that route names some component, and each component it names
/// is on hand at least as many times as the route names it.
pub proof fn lemma_can_synthesize(routes: Seq<(Seq<char>, Seq<Seq<char>>)>, item: Seq<char>, have: Seq<Seq<char>>)
    requires
        forall|i: int, j: int| 0 <= i < j < routes.len() ==> routes[i].0 != routes[j].0,
    ensures
        synthesizable(routes, item, have) <==> exists|k: int|
            0 <= k < routes.len() && #[trigger] routes[k].0 == item && routes[k].1.len() > 0 && forall|x: Seq<char>|
                count_in(routes[k].1, x) <= count_in(have, x),
{
    lemma_route_of_unique(routes, item);
    if synthesizable(routes, item, have) {
        let k = choose|k: int| 0 <= k < routes.len() && routes[k].0 == item;
        assert(route_of(routes, item) == Some(routes[k].1));
    }
}

impl ItemSynthesisIndex {
    pub open spec fn routes_view(&self) -> Seq<(Seq<char>, Seq<Seq<char>>)> {
        route_table(self.routes@)
    }

    /// Routes of the completed items that have a recipe.
    pub fn from_equipment(equipment: &[EquipmentData]) -> (r: Self)
        ensures
            r.routes_view() == equipment_routes(equipment@),
    {
        let mut routes: Vec<(String, Vec<String>)> = Vec::new();
        let mut i: usize = 0;
        while i < equipment.len()
            invariant
                i <= equipment@.len(),
                route_table(routes@) == equipment_routes(equipment@.subrange(0, i as int)),
            decreases equipment@.len() - i,
        {
            let ghost nxt = equipment@.subrange(0, i + 1);
            assert(nxt.drop_last() =~= equipment@.subrange(0, i as int));
            let e = &equipment[i];
            let mut comps: Vec<String> = Vec::new();
            if !e.synthesis1.as_str().is_empty() && !str_eq(e.synthesis1.as_str(), "0") {
                comps.push(e.synthesis1.clone());
            }
            if !e.synthesis2.as_str().is_empty() && !str_eq(e.synthesis2.as_str(), "0") {
                comps.push(e.synthesis2.clone());
            }
            assert(views(comps@) =~= recipe_components(*e));
            if (e.is_completed || str_eq(e.equip_type.as_str(), "成型装备")) && comps.len() > 0 {
                let ghost before = route_table(routes@);
                let entry = (e.id.clone(), comps);
                routes.push(entry);
                assert(route_table(routes@) =~= before.push((e.id@, recipe_components(*e))));
            }
            i = i + 1;
        }
        assert(equipment@.subrange(0, i as int) =~= equipment@);
        ItemSynthesisIndex { routes }
    }

    /// An index over the given routes.
    pub fn from_routes(routes: Vec<(String, Vec<String>)>) -> (r: Self)
        ensures
            r.routes_view() == route_table(routes@),
    {
        ItemSynthesisIndex { routes }
    }

    /// Whether `item_id` can be made from the components on hand: it has a
    /// non-empty route whose components are all on hand, as many times as
    /// needed.
    pub fn can_synthesize(&self, item_id: &str, current_component_ids: &[String]) -> (b: bool)
        ensures
            b == synthesizable(self.routes_view(), item_id@, views(current_component_ids@)),
    {
        let ghost t = self.routes_view();
        let mut k: usize = self.routes.len();
        assert(t.subrange(0, k as int) =~= t);
        while k > 0
            invariant
                t == self.routes_view(),
                k <= t.len(),
                route_of(t, item_id@) == route_of(t.subrange(0, k as int), item_id@),
            decreases k,
        {
            let ghost pre = t.subrange(0, k as int);
            assert(pre.drop_last() =~= t.subrange(0, k - 1));
            assert(pre.last() == (self.routes@[k - 1].0@, views(self.routes@[k - 1].1@)));
            if str_eq(self.routes[k - 1].0.as_str(), item_id) {
                let route = &self.routes[k - 1].1;
                assert(route_of(t, item_id@) == Some(views(route@)));
                if route.len() == 0 {
                    return false;
                }
                let have = current_component_ids;
                let ghost rv = views(route@);
                let ghost hv = views(current_component_ids@);
                let mut j: usize = 0;
                while j < route.len()
                    invariant
                        rv == views(route@),
                        hv == views(have@),
                        hv == views(current_component_ids@),
                        t == self.routes_view(),
                        route_of(t, item_id@) == Some(rv),
                        rv.len() > 0,
                        j <= rv.len(),
                        forall|q: int| 0 <= q < j ==> count_in(rv, #[trigger] rv[q]) <= count_in(hv, rv[q]),
                    decreases rv.len() - j,
                {
                    let need = count_text(route.as_slice(), route[j].as_str());
                    let got = count_text(have, route[j].as_str());
                    assert(rv[j as int] == route@[j as int]@);
                    if need > got {
                        assert(!covers(rv, hv));
                        return false;
                    }
                    j = j + 1;
                }
                proof {
                    assert forall|x: Seq<char>| count_in(rv, x) <= count_in(hv, x) by {
                        if count_in(rv, x) > 0 {
                            lemma_count_positive(rv, x);
                            let q = choose|q: int| 0 <= q < rv.len() && rv[q] == x;
                            assert(count_in(rv, rv[q]) <= count_in(hv, rv[q]));
                        }
                    }
                }
                return true;
            }
            k = k - 1;
        }
        assert(t.subrange(0, 0) =~= Seq::<(Seq<char>, Seq<Seq<char>>)>::empty());
        false
    }
}

// ---------------------------------------------------------------------------
// Scoring one item
// ---------------------------------------------------------------------------

/// The item grants a stat of that name.
pub open spec fn has_stat(i: ItemProfileView, name: Seq<char>) -> bool {
    exists|k: int| 0 <= k < i.stats.len() && (#[trigger] i.stats[k]).name == name
}

/// A damage type of the item matches the hero.
pub open spec fn dt_match(c: CapabilityView, dt: Seq<char>) -> bool {
    ||| has_sub(c.damage_profile, dt)
    ||| (dt == "ad"@ && c.scaling_stats.contains("attack_damage"@))
    ||| (dt == "ap"@ && c.scaling_stats.contains("ability_power"@))
    ||| (dt == "tank"@ && c.position_role == "frontline"@)
}

/// The item serves a stat the hero scales with.
pub open spec fn stat_match(i: ItemProfileView, stat: Seq<char>) -> bool {
    if stat == "attack_damage"@ {
        i.effect_tags.contains("attack_damage"@) || has_stat(i, "ad"@)
    } else if stat == "ability_power"@ {
        has_stat(i, "ap"@)
    } else if stat == "attack_speed"@ {
        has_stat(i, "attack_speed"@)
    } else if stat == "mana"@ {
        i.effect_tags.contains("mana_engine"@)
    } else if stat == "crit"@ {
        has_stat(i, "crit"@)
    } else if stat == "health"@ {
        has_stat(i, "hp"@) || has_stat(i, "armor"@)
    } else {
        false
    }
}

/// Points for damage type (25), scaling (20), cast pattern (15), position
/// (10) and risk cover (10 each).
pub open spec fn raw_fit(c: CapabilityView, i: ItemProfileView) -> int {
    let a = if exists|k: int| 0 <= k < i.damage_type_fit.len() && dt_match(c, #[trigger] i.damage_type_fit[k]) {
        25int
    } else {
        0int
    };
    let b = if exists|k: int| 0 <= k < c.scaling_stats.len() && stat_match(i, #[trigger] c.scaling_stats[k]) {
        20int
    } else {
        0int
    };
    let mana = i.effect_tags.contains("mana_engine"@);
    let cast = if c.cast_pattern == "mana_cast"@ && mana {
        15int
    } else if c.cast_pattern == "attack_based"@ && (has_stat(i, "attack_speed"@) || has_stat(i, "ad"@)) {
        15int
    } else {
        0int
    };
    let pos = if c.position_role == "frontline"@ && (has_stat(i, "hp"@) || has_stat(i, "armor"@)) {
        10int
    } else if c.position_role == "backline"@ && mana {
        10int
    } else {
        0int
    };
    let shield = i.effect_tags.contains("shield_survival"@);
    let r1 = if c.risk_profile.contains("crowd_control"@) && shield {
        10int
    } else {
        0int
    };
    let r2 = if c.risk_profile.contains("burst_damage"@) && shield {
        10int
    } else {
        0int
    };
    40 + a + b + cast + pos + r1 + r2
}

/// The fit score, within 0-100.
pub open spec fn fit_score(c: CapabilityView, i: ItemProfileView) -> int {
    clamp(raw_fit(c, i), 0, 100)
}

fn stat_named(item: &ItemValueProfile, name: &str) -> (b: bool)
    ensures
        b == has_stat(item@, name@),
{
    let mut k: usize = 0;
    while k < item.stats.len()
        invariant
            k <= item.stats@.len(),
            forall|q: int| 0 <= q < k ==> item.stats@[q].name@ != name@,
        decreases item.stats@.len() - k,
    {
        if str_eq(item.stats[k].name.as_str(), name) {
            assert(item@.stats[k as int].name == name@);
            return true;
        }
        k = k + 1;
    }
    proof {
        assert forall|q: int| 0 <= q < item@.stats.len() implies (#[trigger] item@.stats[q]).name != name@ by {
            assert(item@.stats[q] == item.stats@[q]@);
        }
    }
    false
}

fn dt_matches(champ: &ChampionCapability, dt: &str) -> (b: bool)
    ensures
        b == dt_match(champ@, dt@),
{
    str_contains(champ.damage_profile.as_str(), dt) || (str_eq(dt, "ad") && list_has(&champ.scaling_stats, "attack_damage"))
        || (str_eq(dt, "ap") && list_has(&champ.scaling_stats, "ability_power")) || (str_eq(dt, "tank") && str_eq(
        champ.position_role.as_str(),
        "frontline",
    ))
}

fn stat_matches(item: &ItemValueProfile, stat: &str) -> (b: bool)
    ensures
        b == stat_match(item@, stat@),
{
    if str_eq(stat, "attack_damage") {
        list_has(&item.effect_tags, "attack_damage") || stat_named(item, "ad")
    } else if str_eq(stat, "ability_power") {
        stat_named(item, "ap")
    } else if str_eq(stat, "attack_speed") {
        stat_named(item, "attack_speed")
    } else if str_eq(stat, "mana") {
        list_has(&item.effect_tags, "mana_engine")
    } else if str_eq(stat, "crit") {
        stat_named(item, "crit")
    } else if str_eq(stat, "health") {
        stat_named(item, "hp") || stat_named(item, "armor")
    } else {
        false
    }
}

fn any_dt_match(champ: &ChampionCapability, item: &ItemValueProfile) -> (r: bool)
    ensures
        r == exists|k: int| 0 <= k < item@.damage_type_fit.len() && dt_match(champ@, #[trigger] item@.damage_type_fit[k]),
{
    let mut k: usize = 0;
    while k < item.damage_type_fit.len()
        invariant
            k <= item.damage_type_fit@.len(),
            forall|q: int| 0 <= q < k ==> !dt_match(champ@, #[trigger] item@.damage_type_fit[q]),
        decreases item.damage_type_fit@.len() - k,
    {
        assert(item@.damage_type_fit[k as int] == item.damage_type_fit@[k as int]@);
        if dt_matches(champ, item.damage_type_fit[k].as_str()) {
            return true;
        }
        k = k + 1;
    }
    false
}

fn any_stat_match(champ: &ChampionCapability, item: &ItemValueProfile) -> (r: bool)
    ensures
        r == exists|k: int| 0 <= k < champ@.scaling_stats.len() && stat_match(item@, #[trigger] champ@.scaling_stats[k]),
{
    let mut j: usize = 0;
    while j < champ.scaling_stats.len()
        invariant
            j <= champ.scaling_stats@.len(),
            forall|q: int| 0 <= q < j ==> !stat_match(item@, #[trigger] champ@.scaling_stats[q]),
        decreases champ.scaling_stats@.len() - j,
    {
        assert(champ@.scaling_stats[j as int] == champ.scaling_stats@[j as int]@);
        if stat_matches(item, champ.scaling_stats[j].as_str()) {
            return true;
        }
        j = j + 1;
    }
    false
}

impl ChampionItemFitScorer {
    /// Fit score of an item for a hero, within 0-100.
    pub fn score_item(champ: &ChampionCapability, item: &ItemValueProfile) -> (s: i32)
        ensures
            s == fit_score(champ@, item@),
    {
        let a: i32 = if any_dt_match(champ, item) {
            25
        } else {
            0
        };
        let b: i32 = if any_stat_match(champ, item) {
            20
        } else {
            0
        };
        let mana = list_has(&item.effect_tags, "mana_engine");
        let cast: i32 = if str_eq(champ.cast_pattern.as_str(), "mana_cast") && mana {
            15
        } else if str_eq(champ.cast_pattern.as_str(), "attack_based") && (stat_named(item, "attack_speed") || stat_named(
            item,
            "ad",
        )) {
            15
        } else {
            0
        };
        let pos: i32 = if str_eq(champ.position_role.as_str(), "frontline") && (stat_named(item, "hp") || stat_named(
            item,
            "armor",
        )) {
            10
        } else if str_eq(champ.position_role.as_str(), "backline") && mana {
            10
        } else {
            0
        };
        let shield = list_has(&item.effect_tags, "shield_survival");
        let r1: i32 = if list_has(&champ.risk_profile, "crowd_control") && shield {
            10
        } else {
            0
        };
        let r2: i32 = if list_has(&champ.risk_profile, "burst_damage") && shield {
            10
        } else {
            0
        };
        clamp_i32(40 + a + b + cast + pos + r1 + r2, 0, 100)
    }
}

// ---------------------------------------------------------------------------
// Scoring all items
// ---------------------------------------------------------------------------

/// The fit of an item for a hero.
pub open spec fn fit_for(c: CapabilityView, i: ItemProfileView) -> FitView {
    let s = fit_score(c, i);
    let t = tier_of(s);
    FitView {
        item_id: i.item_id,
        item_name: i.name,
        score: s,
        tier: t,
        reasons: if t == ItemTier::Core || t == ItemTier::Strong {
            seq!["机制高度匹配"@]
        } else {
            seq![]
        },
        penalties: if s < 40 {
            seq!["收益偏低"@]
        } else {
            seq![]
        },
    }
}

/// Fits of the completed items, in item order.
pub open spec fn completed_fits(c: CapabilityView, items: Seq<ItemProfileView>) -> Seq<FitView>
    decreases items.len(),
{
    if items.len() == 0 {
        seq![]
    } else {
        let p = completed_fits(c, items.drop_last());
        if items.last().item_type == "成型装备"@ {
            p.push(fit_for(c, items.last()))
        } else {
            p
        }
    }
}

/// Sort key: higher scores first.
pub open spec fn score_key(f: FitView) -> Key3 {
    (-f.score as i64, 0i64, 0i64)
}

/// `s` is `u` by decreasing score, equal scores in their order.
pub open spec fn sorted_by_score(u: Seq<FitView>, s: Seq<FitView>) -> bool {
    exists|idx: Seq<usize>|
        is_permutation(idx, u.len()) && stably_sorted(u.map_values(|f: FitView| score_key(f)), idx) && s.len()
            == u.len() && forall|i: int| 0 <= i < s.len() ==> #[trigger] s[i] == u[idx[i] as int]
}

/// Scores are within 0-100.
pub open spec fn scores_in_range(f: Seq<FitView>) -> bool {
    forall|i: int| 0 <= i < f.len() ==> 0 <= (#[trigger] f[i]).score <= 100
}

fn clone_fit(f: &ChampionItemFit) -> (r: ChampionItemFit)
    ensures
        r@ == f@,
{
    ChampionItemFit {
        item_id: f.item_id.clone(),
        item_name: f.item_name.clone(),
        score: f.score,
        tier: f.tier,
        reasons: clone_strings(&f.reasons),
        penalties: clone_strings(&f.penalties),
    }
}

/// The fits by decreasing score, equal scores in their order.
fn sort_fits(v: &Vec<ChampionItemFit>) -> (r: Vec<ChampionItemFit>)
    ensures
        sorted_by_score(fit_views(v@), fit_views(r@)),
        scores_in_range(fit_views(v@)) ==> scores_in_range(fit_views(r@)),
{
    let ghost u = fit_views(v@);
    let ghost kv = u.map_values(|f: FitView| score_key(f));
    let mut keys: Vec<Key3> = Vec::new();
    let mut i: usize = 0;
    while i < v.len()
        invariant
            u == fit_views(v@),
            kv == u.map_values(|f: FitView| score_key(f)),
            i <= v@.len(),
            keys@ == kv.subrange(0, i as int),
        decreases v@.len() - i,
    {
        keys.push((-(v[i].score as i64), 0i64, 0i64));
        assert(u[i as int] == v@[i as int]@);
        i = i + 1;
        assert(keys@ =~= kv.subrange(0, i as int));
    }
    assert(kv.subrange(0, i as int) =~= kv);
    let idx = stable_order(&keys);
    let mut r: Vec<ChampionItemFit> = Vec::new();
    let mut t: usize = 0;
    while t < idx.len()
        invariant
            u == fit_views(v@),
            is_permutation(idx@, v@.len()),
            t <= idx@.len(),
            r@.len() == t,
            forall|q: int| 0 <= q < t ==> (#[trigger] r@[q])@ == u[idx@[q] as int],
        decreases idx@.len() - t,
    {
        r.push(clone_fit(&v[idx[t]]));
        t = t + 1;
    }
    proof {
        let rv = fit_views(r@);
        assert forall|q: int| 0 <= q < rv.len() implies #[trigger] rv[q] == u[idx@[q] as int] by {
            assert(rv[q] == r@[q]@);
        }
        assert(sorted_by_score(u, rv));
    }
    r
}

/// Fits of the completed items, in item order.
fn fits_in_order(champ: &ChampionCapability, items: &[ItemValueProfile]) -> (r: Vec<ChampionItemFit>)
    ensures
        fit_views(r@) == completed_fits(champ@, item_views(items@)),
        scores_in_range(fit_views(r@)),
{
    let ghost iv = item_views(items@);
    let mut r: Vec<ChampionItemFit> = Vec::new();
    let mut i: usize = 0;
    while i < items.len()
        invariant
            iv == item_views(items@),
            i <= iv.len(),
            fit_views(r@) == completed_fits(champ@, iv.subrange(0, i as int)),
            scores_in_range(fit_views(r@)),
        decreases iv.len() - i,
    {
        let ghost nxt = iv.subrange(0, i + 1);
        assert(nxt.drop_last() =~= iv.subrange(0, i as int));
        assert(nxt.last() == items@[i as int]@);
        let item = &items[i];
        if str_eq(item.item_type.as_str(), "成型装备") {
            let score = ChampionItemFitScorer::score_item(champ, item);
            let tier = tier_for_score(score);
            let mut reasons: Vec<String> = Vec::new();
            let mut penalties: Vec<String> = Vec::new();
            if tier == ItemTier::Core || tier == ItemTier::Strong {
                reasons.push(owned("机制高度匹配"));
            }
            if score < 40 {
                penalties.push(owned("收益偏低"));
            }
            let f = ChampionItemFit {
                item_id: item.item_id.clone(),
                item_name: item.name.clone(),
                score,
                tier,
                reasons,
                penalties,
            };
            proof {
                assert(f@.reasons =~= fit_for(champ@, item@).reasons);
                assert(f@.penalties =~= fit_for(champ@, item@).penalties);
            }
            let ghost before = fit_views(r@);
            r.push(f);
            assert(fit_views(r@) =~= before.push(f@));
        }
        i = i + 1;
    }
    assert(iv.subrange(0, i as int) =~= iv);
    r
}

/// Names of the fits of a tier, in order.
pub open spec fn names_of_tier(f: Seq<FitView>, t: ItemTier) -> Seq<Seq<char>>
    decreases f.len(),
{
    if f.len() == 0 {
        seq![]
    } else {
        let p = names_of_tier(f.drop_last(), t);
        if f.last().tier == t {
            p.push(f.last().item_name)
        } else {
            p
        }
    }
}

pub struct PrefsView {
    pub core: Seq<Seq<char>>,
    pub strong: Seq<Seq<char>>,
    pub acceptable: Seq<Seq<char>>,
    pub emergency: Seq<Seq<char>>,
    pub bad: Seq<Seq<char>>,
}

pub open spec fn prefs_view(p: ItemPreferences) -> PrefsView {
    PrefsView {
        core: views(p.core@),
        strong: views(p.strong@),
        acceptable: views(p.acceptable@),
        emergency: views(p.emergency@),
        bad: views(p.bad@),
    }
}

/// Items not among those given, in order.
pub open spec fn not_in(ids: Seq<Seq<char>>, have: Seq<Seq<char>>) -> Seq<Seq<char>>
    decreases ids.len(),
{
    if ids.len() == 0 {
        seq![]
    } else {
        let p = not_in(ids.drop_last(), have);
        if have.contains(ids.last()) {
            p
        } else {
            p.push(ids.last())
        }
    }
}

/// The first `n` distinct names of a stream of candidates.
pub open spec fn take_distinct(s: Seq<Seq<char>>, n: nat) -> Seq<Seq<char>>
    decreases s.len(),
{
    if s.len() == 0 {
        seq![]
    } else {
        let p = take_distinct(s.drop_last(), n);
        if p.len() < n && !p.contains(s.last()) {
            p.push(s.last())
        } else {
            p
        }
    }
}

/// Names of the fits at most as good as `worst` that are not recommended.
pub open spec fn fallback_names(f: Seq<FitView>, worst: ItemTier, rec: Seq<Seq<char>>) -> Seq<Seq<char>>
    decreases f.len(),
{
    if f.len() == 0 {
        seq![]
    } else {
        let p = fallback_names(f.drop_last(), worst, rec);
        let x = f.last();
        if tier_rank(x.tier) <= tier_rank(worst) && !rec.contains(x.item_id) {
            p.push(x.item_name)
        } else {
            p
        }
    }
}

fn not_in_exec(ids: &[String], have: &[String]) -> (r: Vec<String>)
    ensures
        views(r@) == not_in(views(ids@), views(have@)),
{
    let ghost iv = views(ids@);
    let mut r: Vec<String> = Vec::new();
    let mut i: usize = 0;
    while i < ids.len()
        invariant
            iv == views(ids@),
            i <= iv.len(),
            views(r@) == not_in(iv.subrange(0, i as int), views(have@)),
        decreases iv.len() - i,
    {
        let ghost nxt = iv.subrange(0, i + 1);
        assert(nxt.drop_last() =~= iv.subrange(0, i as int));
        assert(nxt.last() == ids@[i as int]@);
        if !slice_has(have, ids[i].as_str()) {
            let ghost before = views(r@);
            r.push(ids[i].clone());
            assert(views(r@) =~= before.push(ids@[i as int]@));
        }
        i = i + 1;
    }
    assert(iv.subrange(0, i as int) =~= iv);
    r
}

/// Membership of a text in a slice of texts.
fn slice_has(v: &[String], s: &str) -> (b: bool)
    ensures
        b == views(v@).contains(s@),
{
    let mut i: usize = 0;
    while i < v.len()
        invariant
            i <= v@.len(),
            forall|k: int| 0 <= k < i ==> v@[k]@ != s@,
        decreases v@.len() - i,
    {
        if str_eq(v[i].as_str(), s) {
            assert(views(v@)[i as int] == s@);
            return true;
        }
        i = i + 1;
    }
    assert forall|k: int| 0 <= k < views(v@).len() implies views(v@)[k] != s@ by {
        assert(views(v@)[k] == v@[k]@);
    }
    false
}

/// Keeps the first `n` distinct names of a stream.
fn take_distinct_exec(s: &Vec<String>, n: usize) -> (r: Vec<String>)
    ensures
        views(r@) == take_distinct(views(s@), n as nat),
{
    let ghost sv = views(s@);
    let mut r: Vec<String> = Vec::new();
    let mut i: usize = 0;
    while i < s.len()
        invariant
            sv == views(s@),
            i <= sv.len(),
            views(r@) == take_distinct(sv.subrange(0, i as int), n as nat),
        decreases sv.len() - i,
    {
        let ghost nxt = sv.subrange(0, i + 1);
        assert(nxt.drop_last() =~= sv.subrange(0, i as int));
        assert(nxt.last() == s@[i as int]@);
        if r.len() < n && !list_has(&r, s[i].as_str()) {
            let ghost before = views(r@);
            r.push(s[i].clone());
            assert(views(r@) =~= before.push(s@[i as int]@));
        }
        i = i + 1;
    }
    assert(sv.subrange(0, i as int) =~= sv);
    r
}

fn fallback_names_exec(f: &Vec<ChampionItemFit>, worst: ItemTier, rec: &[String]) -> (r: Vec<String>)
    ensures
        views(r@) == fallback_names(fit_views(f@), worst, views(rec@)),
{
    let ghost fv = fit_views(f@);
    let mut r: Vec<String> = Vec::new();
    let mut i: usize = 0;
    while i < f.len()
        invariant
            fv == fit_views(f@),
            i <= fv.len(),
            views(r@) == fallback_names(fv.subrange(0, i as int), worst, views(rec@)),
        decreases fv.len() - i,
    {
        let ghost nxt = fv.subrange(0, i + 1);
        assert(nxt.drop_last() =~= fv.subrange(0, i as int));
        assert(nxt.last() == f@[i as int]@);
        if tier_rank_exec(f[i].tier) <= tier_rank_exec(worst) && !slice_has(rec, f[i].item_id.as_str()) {
            let ghost before = views(r@);
            r.push(f[i].item_name.clone());
            assert(views(r@) =~= before.push(f@[i as int].item_name@));
        }
        i = i + 1;
    }
    assert(fv.subrange(0, i as int) =~= fv);
    r
}

fn tier_rank_exec(t: ItemTier) -> (r: u8)
    ensures
        r == tier_rank(t),
{
    match t {
        ItemTier::Core => 0,
        ItemTier::Strong => 1,
        ItemTier::Acceptable => 2,
        ItemTier::Emergency => 3,
        ItemTier::Bad => 4,
    }
}

/// What `assess_item_gaps` reports.
pub open spec fn gap_report(
    fits: Seq<FitView>,
    rec: Seq<Seq<char>>,
    current: Seq<Seq<char>>,
) -> GapView {
    let missing = not_in(rec, current);
    let alternatives = take_distinct(fallback_names(fits, ItemTier::Strong, rec), 3);
    let penalty = min_int((missing.len() * 20) as int, 60);
    let pivot = penalty >= 40 && alternatives.len() < 2;
    GapView {
        core_missing_penalty: penalty,
        alternatives,
        should_pivot: pivot,
        explanation: if missing.len() == 0 {
            "核心装备齐全"@
        } else if pivot {
            "缺 "@ + crate::text::int_text(missing.len() as int) + " 件核心装且替代不足，建议考虑转阵容"@
        } else {
            "缺 "@ + crate::text::int_text(missing.len() as int) + " 件核心装，可用替代: "@ + joined(alternatives, ", "@)
        },
    }
}

proof fn lemma_take_distinct(s: Seq<Seq<char>>, n: nat)
    ensures
        take_distinct(s, n).len() <= n,
        forall|i: int, j: int|
            0 <= i < j < take_distinct(s, n).len() ==> take_distinct(s, n)[i] != take_distinct(s, n)[j],
        forall|i: int| 0 <= i < take_distinct(s, n).len() ==> s.contains(#[trigger] take_distinct(s, n)[i]),
    decreases s.len(),
{
    if s.len() > 0 {
        let p = take_distinct(s.drop_last(), n);
        lemma_take_distinct(s.drop_last(), n);
        let t = take_distinct(s, n);
        assert forall|i: int| 0 <= i < t.len() implies s.contains(#[trigger] t[i]) by {
            if i < p.len() {
                assert(t[i] == p[i]);
                let k = choose|k: int| 0 <= k < s.drop_last().len() && s.drop_last()[k] == p[i];
                assert(s[k] == p[i]);
            } else {
                assert(s[s.len() - 1] == t[i]);
            }
        }
        assert forall|i: int, j: int| 0 <= i < j < t.len() implies t[i] != t[j] by {
            if j == p.len() && t.len() > p.len() {
                assert(t[i] == p[i]);
                assert(p.contains(p[i]));
            } else {
                assert(t[i] == p[i] && t[j] == p[j]);
            }
        }
    }
}

proof fn lemma_fallback_names(f: Seq<FitView>, worst: ItemTier, rec: Seq<Seq<char>>, x: Seq<char>)
    requires
        fallback_names(f, worst, rec).contains(x),
    ensures
        exists|k: int|
            0 <= k < f.len() && #[trigger] f[k].item_name == x && tier_rank(f[k].tier) <= tier_rank(worst)
                && !rec.contains(f[k].item_id),
    decreases f.len(),
{
    let p = fallback_names(f.drop_last(), worst, rec);
    let i = choose|i: int| 0 <= i < fallback_names(f, worst, rec).len() && fallback_names(f, worst, rec)[i] == x;
    if i < p.len() {
        assert(fallback_names(f, worst, rec)[i] == p[i]);
        assert(p.contains(x));
        lemma_fallback_names(f.drop_last(), worst, rec, x);
        let k = choose|k: int|
            0 <= k < f.drop_last().len() && #[trigger] f.drop_last()[k].item_name == x && tier_rank(
                f.drop_last()[k].tier,
            ) <= tier_rank(worst) && !rec.contains(f.drop_last()[k].item_id);
        assert(f[k] == f.drop_last()[k]);
    } else {
        assert(f[f.len() - 1] == f.last());
    }
}

/// The alternatives offered for missing items are at most three distinct
/// names, each that of a fit no better than strong whose item is not among
/// the recommended ones; the penalty is 20 per missing item, at most 60.
pub proof fn lemma_gap_alternatives(fits: Seq<FitView>, rec: Seq<Seq<char>>, current: Seq<Seq<char>>)
    ensures
        ({
            let a = gap_report(fits, rec, current).alternatives;
            &&& a.len() <= 3
            &&& forall|i: int, j: int| 0 <= i < j < a.len() ==> a[i] != a[j]
            &&& forall|i: int|
                0 <= i < a.len() ==> exists|k: int|
                    0 <= k < fits.len() && fits[k].item_name == #[trigger] a[i] && tier_rank(fits[k].tier)
                        <= tier_rank(ItemTier::Strong) && !rec.contains(fits[k].item_id)
        }),
        gap_report(fits, rec, current).core_missing_penalty == min_int(not_in(rec, current).len() * 20int, 60),
{
    let cands = fallback_names(fits, ItemTier::Strong, rec);
    let a = take_distinct(cands, 3);
    lemma_take_distinct(cands, 3);
    assert forall|i: int| 0 <= i < a.len() implies exists|k: int|
        0 <= k < fits.len() && fits[k].item_name == #[trigger] a[i] && tier_rank(fits[k].tier) <= tier_rank(
            ItemTier::Strong,
        ) && !rec.contains(fits[k].item_id) by {
        lemma_fallback_names(fits, ItemTier::Strong, rec, a[i]);
    }
}

impl ChampionItemFitScorer {
    /// Fits of the completed items by decreasing score.
    pub fn score_all_items(champ: &ChampionCapability, items: &[ItemValueProfile]) -> (r: Vec<ChampionItemFit>)
        ensures
            sorted_by_score(completed_fits(champ@, item_views(items@)), fit_views(r@)),
            scores_in_range(fit_views(r@)),
    {
        let fits = fits_in_order(champ, items);
        sort_fits(&fits)
    }

    /// Item names grouped by tier, best fits first within a tier.
    pub fn item_preferences(champ: &ChampionCapability, items: &[ItemValueProfile]) -> (p: ItemPreferences)
        ensures
            exists|f: Seq<FitView>|
                sorted_by_score(completed_fits(champ@, item_views(items@)), f) && prefs_view(p) == (PrefsView {
                    core: names_of_tier(f, ItemTier::Core),
                    strong: names_of_tier(f, ItemTier::Strong),
                    acceptable: names_of_tier(f, ItemTier::Acceptable),
                    emergency: names_of_tier(f, ItemTier::Emergency),
                    bad: names_of_tier(f, ItemTier::Bad),
                }),
    {
        let fits = Self::score_all_items(champ, items);
        let ghost fv = fit_views(fits@);
        let mut p = ItemPreferences {
            core: Vec::new(),
            strong: Vec::new(),
            acceptable: Vec::new(),
            emergency: Vec::new(),
            bad: Vec::new(),
        };
        assert(prefs_view(p).core =~= Seq::<Seq<char>>::empty());
        assert(prefs_view(p).strong =~= Seq::<Seq<char>>::empty());
        assert(prefs_view(p).acceptable =~= Seq::<Seq<char>>::empty());
        assert(prefs_view(p).emergency =~= Seq::<Seq<char>>::empty());
        assert(prefs_view(p).bad =~= Seq::<Seq<char>>::empty());
        let mut i: usize = 0;
        while i < fits.len()
            invariant
                fv == fit_views(fits@),
                i <= fv.len(),
                prefs_view(p) == (PrefsView {
                    core: names_of_tier(fv.subrange(0, i as int), ItemTier::Core),
                    strong: names_of_tier(fv.subrange(0, i as int), ItemTier::Strong),
                    acceptable: names_of_tier(fv.subrange(0, i as int), ItemTier::Acceptable),
                    emergency: names_of_tier(fv.subrange(0, i as int), ItemTier::Emergency),
                    bad: names_of_tier(fv.subrange(0, i as int), ItemTier::Bad),
                }),
            decreases fv.len() - i,
        {
            let ghost nxt = fv.subrange(0, i + 1);
            assert(nxt.drop_last() =~= fv.subrange(0, i as int));
            assert(nxt.last() == fits@[i as int]@);
            let name = fits[i].item_name.clone();
            let ghost pv = prefs_view(p);
            match fits[i].tier {
                ItemTier::Core => {
                    p.core.push(name);
                    assert(views(p.core@) =~= pv.core.push(name@));
                },
                ItemTier::Strong => {
                    p.strong.push(name);
                    assert(views(p.strong@) =~= pv.strong.push(name@));
                },
                ItemTier::Acceptable => {
                    p.acceptable.push(name);
                    assert(views(p.acceptable@) =~= pv.acceptable.push(name@));
                },
                ItemTier::Emergency => {
                    p.emergency.push(name);
                    assert(views(p.emergency@) =~= pv.emergency.push(name@));
                },
                ItemTier::Bad => {
                    p.bad.push(name);
                    assert(views(p.bad@) =~= pv.bad.push(name@));
                },
            }
            i = i + 1;
        }
        assert(fv.subrange(0, i as int) =~= fv);
        p
    }

    /// Penalty, alternatives and advice for missing recommended items (the
    /// older assessment without synthesis or replacement groups).
    pub fn assess_item_gaps(
        champ: &ChampionCapability,
        recommended_items: &[String],
        current_items: &[String],
        all_items: &[ItemValueProfile],
    ) -> (g: ItemGapImpact)
        requires
            not_in(views(recommended_items@), views(current_items@)).len() * 20 <= i32::MAX,
        ensures
            exists|f: Seq<FitView>|
                sorted_by_score(completed_fits(champ@, item_views(all_items@)), f) && g@ == gap_report(
                    f,
                    views(recommended_items@),
                    views(current_items@),
                ),
    {
        let fits = Self::score_all_items(champ, all_items);
        let missing = not_in_exec(recommended_items, current_items);
        let candidates = fallback_names_exec(&fits, ItemTier::Strong, recommended_items);
        let alternatives = take_distinct_exec(&candidates, 3);
        let n = missing.len() as i32;
        let penalty = if n * 20 < 60 {
            n * 20
        } else {
            60
        };
        let should_pivot = penalty >= 40 && alternatives.len() < 2;
        let explanation = if missing.len() == 0 {
            owned("核心装备齐全")
        } else if should_pivot {
            let mut e = cat("缺 ", nat_to_text(missing.len() as u64).as_str());
            push_str(&mut e, " 件核心装且替代不足，建议考虑转阵容");
            e
        } else {
            let mut e = cat("缺 ", nat_to_text(missing.len() as u64).as_str());
            push_str(&mut e, " 件核心装，可用替代: ");
            let alts = join(&alternatives, ", ");
            push_str(&mut e, alts.as_str());
            e
        };
        ItemGapImpact { core_missing_penalty: penalty, alternatives, should_pivot, explanation }
    }
}

// ---------------------------------------------------------------------------
// Alternatives to missing items
// ---------------------------------------------------------------------------

/// Every item a replacement group lists: ids, then names, then plain items.
pub open spec fn configured(g: ReplacementGroup) -> Seq<Seq<char>> {
    views(g.item_ids@) + views(g.item_names@) + views(g.items@)
}

/// The groups as lists of their configured items.
pub open spec fn group_items(groups: Seq<(String, ReplacementGroup)>) -> Seq<Seq<Seq<char>>> {
    groups.map_values(|e: (String, ReplacementGroup)| configured(e.1))
}

/// The last fit with that id.
pub open spec fn last_by_id(f: Seq<FitView>, id: Seq<char>) -> Option<FitView>
    decreases f.len(),
{
    if f.len() == 0 {
        None
    } else if f.last().item_id == id {
        Some(f.last())
    } else {
        last_by_id(f.drop_last(), id)
    }
}

/// The last fit with that name.
pub open spec fn last_by_name(f: Seq<FitView>, name: Seq<char>) -> Option<FitView>
    decreases f.len(),
{
    if f.len() == 0 {
        None
    } else if f.last().item_name == name {
        Some(f.last())
    } else {
        last_by_name(f.drop_last(), name)
    }
}

/// The fit an item of a group refers to, by id first, then by name.
pub open spec fn resolve_fit(f: Seq<FitView>, item: Seq<char>) -> Option<FitView> {
    match last_by_id(f, item) {
        Some(x) => Some(x),
        None => last_by_name(f, item),
    }
}

/// Names of the fits a group's items refer to, skipping recommended items.
pub open spec fn group_candidates(f: Seq<FitView>, rec: Seq<Seq<char>>, items: Seq<Seq<char>>) -> Seq<Seq<char>>
    decreases items.len(),
{
    if items.len() == 0 {
        seq![]
    } else {
        let p = group_candidates(f, rec, items.drop_last());
        match resolve_fit(f, items.last()) {
            Some(x) => if rec.contains(x.item_id) {
                p
            } else {
                p.push(x.item_name)
            },
            None => p,
        }
    }
}

/// The name a missing item is known by: its fit's name, else its id.
pub open spec fn missing_display_name(f: Seq<FitView>, id: Seq<char>) -> Seq<char> {
    match last_by_id(f, id) {
        Some(x) => x.item_name,
        None => id,
    }
}

/// Candidates from every group that lists the missing item.
pub open spec fn groups_candidates(
    f: Seq<FitView>,
    rec: Seq<Seq<char>>,
    groups: Seq<Seq<Seq<char>>>,
    mid: Seq<char>,
    mname: Seq<char>,
) -> Seq<Seq<char>>
    decreases groups.len(),
{
    if groups.len() == 0 {
        seq![]
    } else {
        let p = groups_candidates(f, rec, groups.drop_last(), mid, mname);
        let items = groups.last();
        if items.contains(mid) || items.contains(mname) {
            p + group_candidates(f, rec, items)
        } else {
            p
        }
    }
}

/// Candidates from the replacement groups, missing item by missing item.
pub open spec fn replacement_candidates(
    f: Seq<FitView>,
    rec: Seq<Seq<char>>,
    groups: Seq<Seq<Seq<char>>>,
    missing: Seq<Seq<char>>,
) -> Seq<Seq<char>>
    decreases missing.len(),
{
    if missing.len() == 0 {
        seq![]
    } else {
        replacement_candidates(f, rec, groups, missing.drop_last()) + groups_candidates(
            f,
            rec,
            groups,
            missing.last(),
            missing_display_name(f, missing.last()),
        )
    }
}

/// Up to three alternatives: replacement-group candidates first, then
/// acceptable-or-better fits, never a recommended item, each name once.
pub open spec fn alternatives_spec(
    f: Seq<FitView>,
    missing: Seq<Seq<char>>,
    rec: Seq<Seq<char>>,
    groups: Option<Seq<Seq<Seq<char>>>>,
) -> Seq<Seq<char>> {
    let from_groups = match groups {
        Some(g) => replacement_candidates(f, rec, g, missing),
        None => seq![],
    };
    take_distinct(from_groups + fallback_names(f, ItemTier::Acceptable, rec), 3)
}

fn last_by_id_exec(f: &Vec<ChampionItemFit>, id: &str) -> (r: Option<usize>)
    ensures
        match r {
            Some(k) => k < f@.len() && last_by_id(fit_views(f@), id@) == Some(f@[k as int]@),
            None => last_by_id(fit_views(f@), id@) is None,
        },
{
    let ghost fv = fit_views(f@);
    let mut k: usize = f.len();
    assert(fv.subrange(0, k as int) =~= fv);
    while k > 0
        invariant
            fv == fit_views(f@),
            k <= fv.len(),
            last_by_id(fv, id@) == last_by_id(fv.subrange(0, k as int), id@),
        decreases k,
    {
        let ghost pre = fv.subrange(0, k as int);
        assert(pre.drop_last() =~= fv.subrange(0, k - 1));
        assert(pre.last() == f@[k - 1]@);
        if str_eq(f[k - 1].item_id.as_str(), id) {
            return Some(k - 1);
        }
        k = k - 1;
    }
    None
}

fn last_by_name_exec(f: &Vec<ChampionItemFit>, name: &str) -> (r: Option<usize>)
    ensures
        match r {
            Some(k) => k < f@.len() && last_by_name(fit_views(f@), name@) == Some(f@[k as int]@),
            None => last_by_name(fit_views(f@), name@) is None,
        },
{
    let ghost fv = fit_views(f@);
    let mut k: usize = f.len();
    assert(fv.subrange(0, k as int) =~= fv);
    while k > 0
        invariant
            fv == fit_views(f@),
            k <= fv.len(),
            last_by_name(fv, name@) == last_by_name(fv.subrange(0, k as int), name@),
        decreases k,
    {
        let ghost pre = fv.subrange(0, k as int);
        assert(pre.drop_last() =~= fv.subrange(0, k - 1));
        assert(pre.last() == f@[k - 1]@);
        if str_eq(f[k - 1].item_name.as_str(), name) {
            return Some(k - 1);
        }
        k = k - 1;
    }
    None
}

fn resolve_fit_exec(f: &Vec<ChampionItemFit>, item: &str) -> (r: Option<usize>)
    ensures
        match r {
            Some(k) => k < f@.len() && resolve_fit(fit_views(f@), item@) == Some(f@[k as int]@),
            None => resolve_fit(fit_views(f@), item@) is None,
        },
{
    match last_by_id_exec(f, item) {
        Some(k) => Some(k),
        None => last_by_name_exec(f, item),
    }
}

impl ReplacementGroup {
    /// Every item the group lists: ids, then names, then plain items.
    pub fn configured_items(&self) -> (r: Vec<String>)
        ensures
            views(r@) == configured(*self),
    {
        let mut r = clone_strings(&self.item_ids);
        let mut names = clone_strings(&self.item_names);
        let mut items = clone_strings(&self.items);
        let ghost a = views(r@);
        let ghost b = views(names@);
        let ghost c = views(items@);
        r.append(&mut names);
        assert(views(r@) =~= a + b);
        r.append(&mut items);
        assert(views(r@) =~= a + b + c);
        r
    }
}

fn append_texts(r: &mut Vec<String>, more: Vec<String>)
    ensures
        views(final(r)@) == views(old(r)@) + views(more@),
{
    let mut more = more;
    let ghost a = views(r@);
    let ghost b = views(more@);
    r.append(&mut more);
    assert(views(r@) =~= a + b);
}

fn group_candidates_exec(f: &Vec<ChampionItemFit>, rec: &[String], items: &Vec<String>) -> (r: Vec<String>)
    ensures
        views(r@) == group_candidates(fit_views(f@), views(rec@), views(items@)),
{
    let ghost iv = views(items@);
    let mut r: Vec<String> = Vec::new();
    let mut i: usize = 0;
    while i < items.len()
        invariant
            iv == views(items@),
            i <= iv.len(),
            views(r@) == group_candidates(fit_views(f@), views(rec@), iv.subrange(0, i as int)),
        decreases iv.len() - i,
    {
        let ghost nxt = iv.subrange(0, i + 1);
        assert(nxt.drop_last() =~= iv.subrange(0, i as int));
        assert(nxt.last() == items@[i as int]@);
        match resolve_fit_exec(f, items[i].as_str()) {
            Some(k) => {
                if !slice_has(rec, f[k].item_id.as_str()) {
                    let ghost before = views(r@);
                    r.push(f[k].item_name.clone());
                    assert(views(r@) =~= before.push(f@[k as int].item_name@));
                }
            },
            None => {},
        }
        i = i + 1;
    }
    assert(iv.subrange(0, i as int) =~= iv);
    r
}

fn groups_candidates_exec(
    f: &Vec<ChampionItemFit>,
    rec: &[String],
    groups: &Vec<(String, ReplacementGroup)>,
    mid: &str,
    mname: &str,
) -> (r: Vec<String>)
    ensures
        views(r@) == groups_candidates(fit_views(f@), views(rec@), group_items(groups@), mid@, mname@),
{
    let ghost gi = group_items(groups@);
    let mut r: Vec<String> = Vec::new();
    let mut g: usize = 0;
    while g < groups.len()
        invariant
            gi == group_items(groups@),
            g <= gi.len(),
            views(r@) == groups_candidates(fit_views(f@), views(rec@), gi.subrange(0, g as int), mid@, mname@),
        decreases gi.len() - g,
    {
        let ghost nxt = gi.subrange(0, g + 1);
        assert(nxt.drop_last() =~= gi.subrange(0, g as int));
        let items = groups[g].1.configured_items();
        assert(nxt.last() == views(items@));
        if list_has(&items, mid) || list_has(&items, mname) {
            let more = group_candidates_exec(f, rec, &items);
            append_texts(&mut r, more);
        }
        g = g + 1;
    }
    assert(gi.subrange(0, g as int) =~= gi);
    r
}

impl ChampionItemFitScorer {
    fn gap_alternatives(
        fits: &Vec<ChampionItemFit>,
        missing_core: &Vec<String>,
        recommended_ids: &[String],
        replacement_groups: Option<&ItemReplacementGroups>,
    ) -> (r: Vec<String>)
        ensures
            views(r@) == alternatives_spec(
                fit_views(fits@),
                views(missing_core@),
                views(recommended_ids@),
                match replacement_groups {
                    Some(g) => Some(group_items(g.groups@)),
                    None => None,
                },
            ),
    {
        let ghost fv = fit_views(fits@);
        let ghost rv = views(recommended_ids@);
        let ghost mv = views(missing_core@);
        let mut stream: Vec<String> = Vec::new();
        match replacement_groups {
            Some(groups) => {
                let ghost gi = group_items(groups.groups@);
                let mut m: usize = 0;
                while m < missing_core.len()
                    invariant
                        fv == fit_views(fits@),
                        rv == views(recommended_ids@),
                        mv == views(missing_core@),
                        gi == group_items(groups.groups@),
                        m <= mv.len(),
                        views(stream@) == replacement_candidates(fv, rv, gi, mv.subrange(0, m as int)),
                    decreases mv.len() - m,
                {
                    let ghost nxt = mv.subrange(0, m + 1);
                    assert(nxt.drop_last() =~= mv.subrange(0, m as int));
                    assert(nxt.last() == missing_core@[m as int]@);
                    let mid = missing_core[m].as_str();
                    let mname = match last_by_id_exec(fits, mid) {
                        Some(k) => fits[k].item_name.clone(),
                        None => owned(mid),
                    };
                    let more = groups_candidates_exec(fits, recommended_ids, &groups.groups, mid, mname.as_str());
                    append_texts(&mut stream, more);
                    m = m + 1;
                }
                assert(mv.subrange(0, m as int) =~= mv);
            },
            None => {
                assert(views(stream@) =~= Seq::<Seq<char>>::empty());
            },
        }
        let tail = fallback_names_exec(fits, ItemTier::Acceptable, recommended_ids);
        append_texts(&mut stream, tail);
        take_distinct_exec(&stream, 3)
    }
}

// ---------------------------------------------------------------------------
// Scoring with the item context
// ---------------------------------------------------------------------------

/// A recommended item gains 30 points (at most 100), becomes core at 75 or
/// strong below, and is marked as recommended.
pub open spec fn boost(f: FitView, rec: Seq<Seq<char>>) -> FitView {
    if rec.contains(f.item_id) {
        let s = min_int(f.score + 30, 100);
        FitView {
            score: s,
            tier: if s >= 75 {
                ItemTier::Core
            } else {
                ItemTier::Strong
            },
            reasons: f.reasons.push("官网推荐装"@),
            ..f
        }
    } else {
        f
    }
}

pub open spec fn boosted(fs: Seq<FitView>, rec: Seq<Seq<char>>) -> Seq<FitView> {
    fs.map_values(|f: FitView| boost(f, rec))
}

/// Recommended items that can be made now, in order.
pub open spec fn synth_filter(
    routes: Seq<(Seq<char>, Seq<Seq<char>>)>,
    rec: Seq<Seq<char>>,
    have: Seq<Seq<char>>,
) -> Seq<Seq<char>>
    decreases rec.len(),
{
    if rec.len() == 0 {
        seq![]
    } else {
        let p = synth_filter(routes, rec.drop_last(), have);
        if synthesizable(routes, rec.last(), have) {
            p.push(rec.last())
        } else {
            p
        }
    }
}

/// Distinct recommended items that can be made now.
pub open spec fn synth_ids(
    index: Option<Seq<(Seq<char>, Seq<Seq<char>>)>>,
    rec: Seq<Seq<char>>,
    have: Seq<Seq<char>>,
) -> Seq<Seq<char>> {
    match index {
        Some(routes) => crate::item_conflict_scorer::first_occurrences(synth_filter(routes, rec, have)),
        None => seq![],
    }
}

/// The penalty arithmetic stays within `i32`.
pub open spec fn gap_arith_fits(missing: int, can: int, unsynth: int, high: bool) -> bool {
    let strict = if high {
        unsynth * 5
    } else {
        0
    };
    &&& missing * 20 <= i32::MAX
    &&& can * 10 <= i32::MAX
    &&& strict <= i32::MAX
    &&& missing * 20 - can * 10 + strict <= i32::MAX
}

/// The gap report of `score_with_item_context` for the sorted fits `f`.
pub open spec fn context_report(
    high: bool,
    f: Seq<FitView>,
    rec: Seq<Seq<char>>,
    completed: Seq<Seq<char>>,
    have: Seq<Seq<char>>,
    groups: Option<Seq<Seq<Seq<char>>>>,
    index: Option<Seq<(Seq<char>, Seq<Seq<char>>)>>,
) -> GapView {
    let missing = not_in(rec, completed);
    let synth = synth_ids(index, rec, have);
    let can = synth.len() as int;
    let unsynth = not_in(missing, synth).len() as int;
    let strict = if high {
        unsynth * 5
    } else {
        0
    };
    let penalty = clamp(missing.len() * 20 - can * 10 + strict, 0, 60);
    let alternatives = alternatives_spec(f, missing, rec, groups);
    let pivot = penalty >= 40 && alternatives.len() < 2;
    GapView {
        core_missing_penalty: penalty,
        alternatives,
        should_pivot: pivot,
        explanation: if missing.len() == 0 {
            "核心装备齐全（可合成 "@ + crate::text::int_text(can) + " 件）"@
        } else if pivot {
            "缺 "@ + crate::text::int_text(missing.len() as int) + " 件核心装且替代不足（可合成 "@
                + crate::text::int_text(can) + " 件），建议转向"@
        } else {
            "缺 "@ + crate::text::int_text(missing.len() as int) + " 件核心装，可用替代: "@ + joined(
                alternatives,
                ", "@,
            ) + "（可合成 "@ + crate::text::int_text(can) + " 件）"@
        },
    }
}

/// The arithmetic of the context report stays within `i32`.
pub open spec fn context_fits(
    high: bool,
    rec: Seq<Seq<char>>,
    completed: Seq<Seq<char>>,
    have: Seq<Seq<char>>,
    index: Option<Seq<(Seq<char>, Seq<Seq<char>>)>>,
) -> bool {
    let missing = not_in(rec, completed);
    let synth = synth_ids(index, rec, have);
    gap_arith_fits(missing.len() as int, synth.len() as int, not_in(missing, synth).len() as int, high)
}

pub open spec fn index_view(index: Option<&ItemSynthesisIndex>) -> Option<Seq<(Seq<char>, Seq<Seq<char>>)>> {
    match index {
        Some(i) => Some(i.routes_view()),
        None => None,
    }
}

pub open spec fn groups_view(groups: Option<&ItemReplacementGroups>) -> Option<Seq<Seq<Seq<char>>>> {
    match groups {
        Some(g) => Some(group_items(g.groups@)),
        None => None,
    }
}

fn boost_all(fits: &Vec<ChampionItemFit>, rec: &[String]) -> (r: Vec<ChampionItemFit>)
    requires
        scores_in_range(fit_views(fits@)),
    ensures
        fit_views(r@) == boosted(fit_views(fits@), views(rec@)),
        scores_in_range(fit_views(r@)),
{
    let ghost fv = fit_views(fits@);
    let mut r: Vec<ChampionItemFit> = Vec::new();
    let mut i: usize = 0;
    while i < fits.len()
        invariant
            fv == fit_views(fits@),
            scores_in_range(fv),
            i <= fv.len(),
            fit_views(r@) == boosted(fv, views(rec@)).subrange(0, i as int),
            scores_in_range(fit_views(r@)),
        decreases fv.len() - i,
    {
        let mut f = clone_fit(&fits[i]);
        assert(fv[i as int] == fits@[i as int]@);
        if slice_has(rec, f.item_id.as_str()) {
            let s = if f.score + 30 < 100 {
                f.score + 30
            } else {
                100
            };
            f.score = s;
            f.tier = if s >= 75 {
                ItemTier::Core
            } else {
                ItemTier::Strong
            };
            let ghost before = views(f.reasons@);
            f.reasons.push(owned("官网推荐装"));
            assert(views(f.reasons@) =~= before.push("官网推荐装"@));
            assert(f@ == boost(fv[i as int], views(rec@)));
        } else {
            assert(f@ == boost(fv[i as int], views(rec@)));
        }
        let ghost before = fit_views(r@);
        let ghost fvi = f@;
        r.push(f);
        assert(fit_views(r@) =~= before.push(fvi));
        i = i + 1;
        assert(fit_views(r@) =~= boosted(fv, views(rec@)).subrange(0, i as int));
    }
    assert(boosted(fv, views(rec@)).subrange(0, i as int) =~= boosted(fv, views(rec@)));
    r
}

fn synth_list(index: Option<&ItemSynthesisIndex>, rec: &[String], have: &[String]) -> (r: Vec<String>)
    ensures
        views(r@) == synth_ids(index_view(index), views(rec@), views(have@)),
{
    match index {
        None => {
            let r: Vec<String> = Vec::new();
            assert(views(r@) =~= Seq::<Seq<char>>::empty());
            r
        },
        Some(ix) => {
            let ghost rv = views(rec@);
            let ghost routes = ix.routes_view();
            let mut r: Vec<String> = Vec::new();
            let mut i: usize = 0;
            while i < rec.len()
                invariant
                    rv == views(rec@),
                    routes == ix.routes_view(),
                    i <= rv.len(),
                    views(r@) == crate::item_conflict_scorer::first_occurrences(
                        synth_filter(routes, rv.subrange(0, i as int), views(have@)),
                    ),
                decreases rv.len() - i,
            {
                let ghost nxt = rv.subrange(0, i + 1);
                assert(nxt.drop_last() =~= rv.subrange(0, i as int));
                assert(nxt.last() == rec@[i as int]@);
                if ix.can_synthesize(rec[i].as_str(), have) {
                    let ghost pre = synth_filter(routes, rv.subrange(0, i as int), views(have@));
                    assert(synth_filter(routes, nxt, views(have@)) == pre.push(rec@[i as int]@));
                    assert(synth_filter(routes, nxt, views(have@)).drop_last() =~= pre);
                    if !list_has(&r, rec[i].as_str()) {
                        let ghost before = views(r@);
                        r.push(rec[i].clone());
                        assert(views(r@) =~= before.push(rec@[i as int]@));
                    }
                }
                i = i + 1;
            }
            assert(rv.subrange(0, i as int) =~= rv);
            r
        },
    }
}

impl ChampionItemFitScorer {
    /// Fits with the recommended items boosted, and the gap report, with the
    /// components on hand and nothing completed.
    pub fn score_with_recommended(
        champ: &ChampionCapability,
        items: &[ItemValueProfile],
        recommended_ids: &[String],
        current_component_ids: &[String],
    ) -> (r: (Vec<ChampionItemFit>, ItemGapImpact))
        requires
            context_fits(
                champ.item_strictness@ == "high"@,
                views(recommended_ids@),
                seq![],
                views(current_component_ids@),
                None,
            ),
        ensures
            exists|f1: Seq<FitView>, f2: Seq<FitView>|
                sorted_by_score(completed_fits(champ@, item_views(items@)), f1) && sorted_by_score(
                    boosted(f1, views(recommended_ids@)),
                    f2,
                ) && fit_views(r.0@) == f2 && r.1@ == context_report(
                    champ.item_strictness@ == "high"@,
                    f2,
                    views(recommended_ids@),
                    seq![],
                    views(current_component_ids@),
                    None,
                    None,
                ),
    {
        let none: [String; 0] = [];
        assert(views(none@) =~= Seq::<Seq<char>>::empty());
        Self::score_with_item_context(champ, items, recommended_ids, &none, current_component_ids, None, None)
    }

    /// Fits with the recommended items boosted, and the gap report: missing
    /// recommended items, those that can be made now, alternatives from the
    /// replacement groups and the best remaining fits, and whether to pivot.
    pub fn score_with_item_context(
        champ: &ChampionCapability,
        items: &[ItemValueProfile],
        recommended_ids: &[String],
        current_completed_item_ids: &[String],
        current_component_ids: &[String],
        replacement_groups: Option<&ItemReplacementGroups>,
        synthesis_index: Option<&ItemSynthesisIndex>,
    ) -> (r: (Vec<ChampionItemFit>, ItemGapImpact))
        requires
            context_fits(
                champ.item_strictness@ == "high"@,
                views(recommended_ids@),
                views(current_completed_item_ids@),
                views(current_component_ids@),
                index_view(synthesis_index),
            ),
        ensures
            exists|f1: Seq<FitView>, f2: Seq<FitView>|
                sorted_by_score(completed_fits(champ@, item_views(items@)), f1) && sorted_by_score(
                    boosted(f1, views(recommended_ids@)),
                    f2,
                ) && fit_views(r.0@) == f2 && r.1@ == context_report(
                    champ.item_strictness@ == "high"@,
                    f2,
                    views(recommended_ids@),
                    views(current_completed_item_ids@),
                    views(current_component_ids@),
                    groups_view(replacement_groups),
                    index_view(synthesis_index),
                ),
            scores_in_range(fit_views(r.0@)),
    {
        let first = Self::score_all_items(champ, items);
        let lifted = boost_all(&first, recommended_ids);
        let fits = sort_fits(&lifted);
        let synth = synth_list(synthesis_index, recommended_ids, current_component_ids);
        let missing = not_in_exec(recommended_ids, current_completed_item_ids);
        let alternatives = Self::gap_alternatives(&fits, &missing, recommended_ids, replacement_groups);
        let unsynth = not_in_exec(missing.as_slice(), synth.as_slice());
        let high = str_eq(champ.item_strictness.as_str(), "high");
        let m = missing.len() as i64;
        let c = synth.len() as i64;
        let strict: i64 = if high {
            unsynth.len() as i64 * 5
        } else {
            0
        };
        let raw = m * 20 - c * 10 + strict;
        let penalty: i32 = if raw < 0 {
            0
        } else if raw > 60 {
            60
        } else {
            raw as i32
        };
        let should_pivot = penalty >= 40 && alternatives.len() < 2;
        let can_text = nat_to_text(synth.len() as u64);
        let explanation = if missing.len() == 0 {
            let mut e = cat("核心装备齐全（可合成 ", can_text.as_str());
            push_str(&mut e, " 件）");
            e
        } else if should_pivot {
            let mut e = cat("缺 ", nat_to_text(missing.len() as u64).as_str());
            push_str(&mut e, " 件核心装且替代不足（可合成 ");
            push_str(&mut e, can_text.as_str());
            push_str(&mut e, " 件），建议转向");
            e
        } else {
            let mut e = cat("缺 ", nat_to_text(missing.len() as u64).as_str());
            push_str(&mut e, " 件核心装，可用替代: ");
            let alts = join(&alternatives, ", ");
            push_str(&mut e, alts.as_str());
            push_str(&mut e, "（可合成 ");
            push_str(&mut e, can_text.as_str());
            push_str(&mut e, " 件）");
            e
        };
        let impact = ItemGapImpact { core_missing_penalty: penalty, alternatives, should_pivot, explanation };
        (fits, impact)
    }
}

impl ChampionItemOverrideLoader {
    /// Applies the item-strictness override of the hero, if any (the first
    /// entry listed for it).
    pub fn apply(champ: &mut ChampionCapability, overrides: &ChampionItemOverrides)
        ensures
            ({
                let entry = crate::keyed::lookup(
                    overrides.overrides@.map_values(|e: (String, ChampionItemOverrideEntry)| (e.0@, e.1)),
                    old(champ).hero_id@,
                );
                &&& final(champ).item_strictness@ == match entry {
                    Some(e) => match e.item_strictness {
                        Some(s) => s@,
                        None => old(champ).item_strictness@,
                    },
                    None => old(champ).item_strictness@,
                }
                &&& final(champ).hero_id == old(champ).hero_id
                &&& final(champ)@ == (CapabilityView { item_strictness: final(champ).item_strictness@, ..old(champ)@ })
            }),
    {
        let ghost t = overrides.overrides@.map_values(|e: (String, ChampionItemOverrideEntry)| (e.0@, e.1));
        match crate::keyed::first_key(&overrides.overrides, champ.hero_id.as_str()) {
            Some(i) => {
                proof {
                    assert forall|j: int| 0 <= j < i implies t[j].0 != t[i as int].0 by {
                        assert(t[j].0 == overrides.overrides@[j].0@);
                    }
                    crate::keyed::lemma_lookup_first(t, i as int);
                }
                match &overrides.overrides[i].1.item_strictness {
                    Some(s) => {
                        champ.item_strictness = s.clone();
                    },
                    None => {},
                }
            },
            None => {
                proof {
                    assert forall|j: int| 0 <= j < t.len() implies t[j].0 != champ.hero_id@ by {
                        assert(t[j].0 == overrides.overrides@[j].0@);
                    }
                    crate::keyed::lemma_lookup_absent(t, champ.hero_id@);
                }
            },
        }
    }
}

// ---------------------------------------------------------------------------
// Scoring with repeated effects
// ---------------------------------------------------------------------------

/// The warnings the scorer gives for a list of items in a matchup.
pub open spec fn warnings_of(sc: ItemConflictScorer, items: Seq<Seq<char>>, env: ConflictEnvironment) -> Seq<WarningView> {
    choose|w: Seq<WarningView>|
        warnings_match(
            sc.groups_view(),
            sc.values_view(),
            sc.modifiers_view(),
            sources_of_items(sc.groups_view(), items),
            env,
            w,
        )
}

/// Labels of the groups that list `item`.
pub open spec fn listing_labels(groups: Seq<(Seq<char>, GroupView)>, item: Seq<char>) -> Seq<Seq<char>> {
    groups_listing(groups, item).map_values(|g: GroupView| g.label)
}

/// Sum of the penalties of the warnings whose group label is among `labels`.
pub open spec fn matching_penalty(w: Seq<WarningView>, labels: Seq<Seq<char>>) -> int
    decreases w.len(),
{
    if w.len() == 0 {
        0
    } else {
        matching_penalty(w.drop_last(), labels) + if labels.contains(w.last().group_label) {
            w.last().penalty_score
        } else {
            0
        }
    }
}

/// `label重复覆盖，remaining` for each warning whose label is among `labels`.
pub open spec fn matching_lines(w: Seq<WarningView>, labels: Seq<Seq<char>>) -> Seq<Seq<char>>
    decreases w.len(),
{
    if w.len() == 0 {
        seq![]
    } else {
        let p = matching_lines(w.drop_last(), labels);
        if labels.contains(w.last().group_label) {
            p.push(w.last().group_label + "重复覆盖，"@ + w.last().remaining_value)
        } else {
            p
        }
    }
}

/// A fit not yet completed whose groups would repeat an effect loses half
/// the matching penalty (at least one point) and records why.
pub open spec fn conflict_adjusted(
    f: FitView,
    completed: Seq<Seq<char>>,
    labels: Seq<Seq<char>>,
    w: Seq<WarningView>,
) -> FitView {
    let m = matching_penalty(w, labels);
    if completed.contains(f.item_id) || labels.len() == 0 || m >= 0 {
        f
    } else {
        let cut = if (-m) / 2 > 1 {
            (-m) / 2
        } else {
            1
        };
        let s = clamp(f.score - cut, 0, 100);
        FitView { score: s, tier: tier_of(s), penalties: f.penalties + matching_lines(w, labels), ..f }
    }
}

/// Every fit adjusted for the effects it would repeat.
pub open spec fn conflicts_applied(
    f: Seq<FitView>,
    sc: ItemConflictScorer,
    completed: Seq<Seq<char>>,
    env: ConflictEnvironment,
) -> Seq<FitView> {
    f.map_values(
        |x: FitView|
            conflict_adjusted(
                x,
                completed,
                listing_labels(sc.groups_view(), x.item_id),
                warnings_of(sc, completed.push(x.item_id), env),
            ),
    )
}

/// The ids of the items of a catalogue.
pub open spec fn catalogue_ids(items: Seq<ItemValueProfile>) -> Seq<Seq<char>> {
    items.map_values(|i: ItemValueProfile| i.item_id@)
}

/// Adding any one item of `ids` to the completed items keeps every warning
/// within `i32`.
pub open spec fn conflicts_fit(
    sc: ItemConflictScorer,
    completed: Seq<Seq<char>>,
    ids: Seq<Seq<char>>,
    env: ConflictEnvironment,
) -> bool {
    forall|k: int|
        0 <= k < ids.len() ==> crate::item_conflict_scorer::warnings_fit(
            sc.groups_view(),
            sc.values_view(),
            sc.modifiers_view(),
            sources_of_items(sc.groups_view(), completed.push(#[trigger] ids[k])),
            env,
        )
}

proof fn lemma_completed_fit_ids(c: CapabilityView, items: Seq<ItemValueProfile>)
    ensures
        forall|j: int|
            0 <= j < completed_fits(c, item_views(items)).len() ==> catalogue_ids(items).contains(
                #[trigger] completed_fits(c, item_views(items))[j].item_id,
            ),
    decreases items.len(),
{
    if items.len() > 0 {
        let pi = items.drop_last();
        lemma_completed_fit_ids(c, pi);
        assert(item_views(pi) =~= item_views(items).drop_last());
        let p = completed_fits(c, item_views(pi));
        let l = completed_fits(c, item_views(items));
        assert forall|j: int| 0 <= j < l.len() implies catalogue_ids(items).contains(#[trigger] l[j].item_id) by {
            if j < p.len() {
                assert(l[j] == p[j]);
                let q = choose|q: int| 0 <= q < catalogue_ids(pi).len() && catalogue_ids(pi)[q] == p[j].item_id;
                assert(catalogue_ids(items)[q] == catalogue_ids(pi)[q]);
            } else {
                assert(l[j].item_id == items.last().item_id@);
                assert(catalogue_ids(items)[items.len() - 1] == items.last().item_id@);
            }
        }
    }
}

proof fn lemma_sorted_ids(u: Seq<FitView>, s: Seq<FitView>, ids: Seq<Seq<char>>)
    requires
        sorted_by_score(u, s),
        forall|j: int| 0 <= j < u.len() ==> ids.contains(#[trigger] u[j].item_id),
    ensures
        forall|j: int| 0 <= j < s.len() ==> ids.contains(#[trigger] s[j].item_id),
{
    let idx = choose|idx: Seq<usize>|
        is_permutation(idx, u.len()) && stably_sorted(u.map_values(|f: FitView| score_key(f)), idx) && s.len()
            == u.len() && forall|i: int| 0 <= i < s.len() ==> #[trigger] s[i] == u[idx[i] as int];
    assert forall|j: int| 0 <= j < s.len() implies ids.contains(#[trigger] s[j].item_id) by {
        assert(s[j] == u[idx[j] as int]);
    }
}

fn copy_texts(v: &[String]) -> (r: Vec<String>)
    ensures
        views(r@) == views(v@),
{
    let mut r: Vec<String> = Vec::new();
    let mut i: usize = 0;
    while i < v.len()
        invariant
            i <= v@.len(),
            views(r@) == views(v@).subrange(0, i as int),
        decreases v@.len() - i,
    {
        let ghost before = views(r@);
        r.push(v[i].clone());
        assert(views(r@) =~= before.push(v@[i as int]@));
        i = i + 1;
        assert(views(r@) =~= views(v@).subrange(0, i as int));
    }
    assert(views(v@).subrange(0, i as int) =~= views(v@));
    r
}

fn group_labels_of(scorer: &ItemConflictScorer, item: &str) -> (r: Vec<String>)
    ensures
        views(r@) == listing_labels(scorer.groups_view(), item@),
{
    let groups = scorer.get_conflict_groups(item);
    let ghost gv = ref_views(groups@);
    let mut r: Vec<String> = Vec::new();
    let mut i: usize = 0;
    while i < groups.len()
        invariant
            gv == ref_views(groups@),
            gv == groups_listing(scorer.groups_view(), item@),
            i <= gv.len(),
            views(r@) == gv.subrange(0, i as int).map_values(|g: GroupView| g.label),
        decreases gv.len() - i,
    {
        let ghost before = views(r@);
        let l = groups[i].label.clone();
        r.push(l);
        assert(gv[i as int] == groups@[i as int]@);
        assert(views(r@) =~= before.push(gv[i as int].label));
        assert(gv.subrange(0, i + 1).map_values(|g: GroupView| g.label) =~= gv.subrange(0, i as int).map_values(
            |g: GroupView| g.label,
        ).push(gv[i as int].label));
        i = i + 1;
    }
    assert(gv.subrange(0, i as int) =~= gv);
    r
}

/// One fit adjusted for the effects it would repeat.
fn adjust_for_conflicts(
    f: &ChampionItemFit,
    scorer: &ItemConflictScorer,
    completed: &[String],
    env: &ConflictEnvironment,
) -> (r: ChampionItemFit)
    requires
        scorer.well_formed(),
        crate::item_conflict_scorer::warnings_fit(
            scorer.groups_view(),
            scorer.values_view(),
            scorer.modifiers_view(),
            sources_of_items(scorer.groups_view(), views(completed@).push(f@.item_id)),
            *env,
        ),
        0 <= f.score <= 100,
    ensures
        r@ == conflict_adjusted(
            f@,
            views(completed@),
            listing_labels(scorer.groups_view(), f@.item_id),
            warnings_of(*scorer, views(completed@).push(f@.item_id), *env),
        ),
        0 <= r.score <= 100,
{
    let labels = group_labels_of(scorer, f.item_id.as_str());
    let mut items = copy_texts(completed);
    let ghost cv = views(items@);
    items.push(f.item_id.clone());
    assert(views(items@) =~= cv.push(f@.item_id));
    let warnings = scorer.detect_conflicts_with_environment(items.as_slice(), env);
    let ghost wv = seq_views(warnings@);
    proof {
        let sc = *scorer;
        let srcs = sources_of_items(sc.groups_view(), views(completed@).push(f@.item_id));
        let chosen = warnings_of(sc, views(completed@).push(f@.item_id), *env);
        assert(warnings_match(sc.groups_view(), sc.values_view(), sc.modifiers_view(), srcs, *env, wv));
        lemma_warnings_determined(sc.groups_view(), sc.values_view(), sc.modifiers_view(), srcs, *env, wv, chosen);
    }
    if slice_has(completed, f.item_id.as_str()) || labels.len() == 0 {
        return clone_fit(f);
    }
    let ghost lv = views(labels@);
    let mut m: i128 = 0;
    let mut lines: Vec<String> = Vec::new();
    let mut i: usize = 0;
    while i < warnings.len()
        invariant
            wv == seq_views(warnings@),
            lv == views(labels@),
            forall|q: int| 0 <= q < warnings@.len() ==> i32::MIN < (#[trigger] warnings@[q]).penalty_score <= 0,
            i <= wv.len(),
            m == matching_penalty(wv.subrange(0, i as int), lv),
            -0x8000_0000 * i <= m <= 0,
            views(lines@) == matching_lines(wv.subrange(0, i as int), lv),
        decreases wv.len() - i,
    {
        let ghost nxt = wv.subrange(0, i + 1);
        assert(nxt.drop_last() =~= wv.subrange(0, i as int));
        assert(nxt.last() == warnings@[i as int]@);
        if list_has(&labels, warnings[i].group_label.as_str()) {
            m = m + warnings[i].penalty_score as i128;
            let mut line = cat(warnings[i].group_label.as_str(), "重复覆盖，");
            push_str(&mut line, warnings[i].remaining_value.as_str());
            let ghost before = views(lines@);
            lines.push(line);
            assert(views(lines@) =~= before.push(line@));
        }
        i = i + 1;
    }
    assert(wv.subrange(0, i as int) =~= wv);
    if m >= 0 {
        return clone_fit(f);
    }
    let half = (-m) / 2;
    let cut: i128 = if half > 1 {
        half
    } else {
        1
    };
    let raw = f.score as i128 - cut;
    let s: i32 = if raw < 0 {
        0
    } else if raw > 100 {
        100
    } else {
        raw as i32
    };
    let mut penalties = clone_strings(&f.penalties);
    let ghost pb = views(penalties@);
    let ghost lw = views(lines@);
    penalties.append(&mut lines);
    assert(views(penalties@) =~= pb + lw);
    ChampionItemFit {
        item_id: f.item_id.clone(),
        item_name: f.item_name.clone(),
        score: s,
        tier: tier_for_score(s),
        reasons: clone_strings(&f.reasons),
        penalties,
    }
}

impl ChampionItemFitScorer {
    /// As `score_with_item_context`, then, with a conflict scorer, each item
    /// not yet completed that would repeat an effect of the completed items
    /// loses half the matching penalty (at least one point), and the fits
    /// are sorted again.
    pub fn score_with_item_context_and_conflicts(
        champ: &ChampionCapability,
        items: &[ItemValueProfile],
        recommended_ids: &[String],
        current_completed_item_ids: &[String],
        current_component_ids: &[String],
        replacement_groups: Option<&ItemReplacementGroups>,
        synthesis_index: Option<&ItemSynthesisIndex>,
        conflict_scorer: Option<&ItemConflictScorer>,
        environment: &ConflictEnvironment,
    ) -> (r: (Vec<ChampionItemFit>, ItemGapImpact))
        requires
            context_fits(
                champ.item_strictness@ == "high"@,
                views(recommended_ids@),
                views(current_completed_item_ids@),
                views(current_component_ids@),
                index_view(synthesis_index),
            ),
            conflict_scorer matches Some(sc) ==> sc.well_formed() && conflicts_fit(
                *sc,
                views(current_completed_item_ids@),
                catalogue_ids(items@),
                *environment,
            ),
        ensures
            exists|f1: Seq<FitView>, f2: Seq<FitView>|
                sorted_by_score(completed_fits(champ@, item_views(items@)), f1) && sorted_by_score(
                    boosted(f1, views(recommended_ids@)),
                    f2,
                ) && r.1@ == context_report(
                    champ.item_strictness@ == "high"@,
                    f2,
                    views(recommended_ids@),
                    views(current_completed_item_ids@),
                    views(current_component_ids@),
                    groups_view(replacement_groups),
                    index_view(synthesis_index),
                ) && match conflict_scorer {
                    None => fit_views(r.0@) == f2,
                    Some(sc) => sorted_by_score(
                        conflicts_applied(f2, *sc, views(current_completed_item_ids@), *environment),
                        fit_views(r.0@),
                    ),
                },
    {
        let (fits, impact) = Self::score_with_item_context(
            champ,
            items,
            recommended_ids,
            current_completed_item_ids,
            current_component_ids,
            replacement_groups,
            synthesis_index,
        );
        let scorer = match conflict_scorer {
            None => {
                return (fits, impact);
            },
            Some(sc) => sc,
        };
        let ghost fv = fit_views(fits@);
        let ghost ids = catalogue_ids(items@);
        proof {
            let (f1, f2) = choose|f1: Seq<FitView>, f2: Seq<FitView>|
                sorted_by_score(completed_fits(champ@, item_views(items@)), f1) && sorted_by_score(
                    boosted(f1, views(recommended_ids@)),
                    f2,
                ) && fit_views(fits@) == f2;
            lemma_completed_fit_ids(champ@, items@);
            lemma_sorted_ids(completed_fits(champ@, item_views(items@)), f1, ids);
            let b = boosted(f1, views(recommended_ids@));
            assert forall|j: int| 0 <= j < b.len() implies ids.contains(#[trigger] b[j].item_id) by {
                assert(b[j].item_id == f1[j].item_id);
            }
            lemma_sorted_ids(b, f2, ids);
        }
        let mut adjusted: Vec<ChampionItemFit> = Vec::new();
        let mut i: usize = 0;
        while i < fits.len()
            invariant
                fv == fit_views(fits@),
                scores_in_range(fv),
                scorer.well_formed(),
                forall|j: int| 0 <= j < fv.len() ==> ids.contains(#[trigger] fv[j].item_id),
                conflicts_fit(*scorer, views(current_completed_item_ids@), ids, *environment),
                i <= fv.len(),
                fit_views(adjusted@) == conflicts_applied(fv, *scorer, views(current_completed_item_ids@), *environment).subrange(
                    0,
                    i as int,
                ),
            decreases fv.len() - i,
        {
            assert(fv[i as int] == fits@[i as int]@);
            proof {
                let q = choose|q: int| 0 <= q < ids.len() && ids[q] == fv[i as int].item_id;
                assert(ids[q] == fv[i as int].item_id);
            }
            let a = adjust_for_conflicts(&fits[i], scorer, current_completed_item_ids, environment);
            let ghost before = fit_views(adjusted@);
            let ghost av = a@;
            adjusted.push(a);
            assert(fit_views(adjusted@) =~= before.push(av));
            assert(av == conflicts_applied(fv, *scorer, views(current_completed_item_ids@), *environment)[i as int]);
            i = i + 1;
            assert(fit_views(adjusted@) =~= conflicts_applied(
                fv,
                *scorer,
                views(current_completed_item_ids@),
                *environment,
            ).subrange(0, i as int));
        }
        assert(conflicts_applied(fv, *scorer, views(current_completed_item_ids@), *environment).subrange(0, i as int)
            =~= conflicts_applied(fv, *scorer, views(current_completed_item_ids@), *environment));
        let sorted = sort_fits(&adjusted);
        (sorted, impact)
    }
}

} // verus!
