//! Lineup profiles built from lineup cards and game data: carries and tanks,
//! core items, trait targets, strategy texts, mode data and play-style tags.
use vstd::prelude::*;
use crate::data_types::{
    GodRewardData, HeroData, LineupCardData, LineupDetailData, LineupPieceData, TraitContactData, UnlockTaskData,
};
use crate::game_data_index::{counts_fit, piece_summaries, piece_traits, sorted_summaries, summary_views, GameDataIndex, TraitSummaryView};
use crate::augment_reroll_scorer::opt_text;
use crate::json::{JsonValue, JsonView};
use crate::keyed::{keys_of, lookup};
use crate::rule_types::{LineupProfile, PlaystyleTag};
use crate::text::{clone_strings, owned, parse_i32, parse_i32_spec, str_eq, views};

verus! {

/// Builds lineup profiles.
pub struct LineupProfileBuilder;

// ---------------------------------------------------------------------------
// Pieces
// ---------------------------------------------------------------------------

/// The hero ids of the pieces, in order.
pub open spec fn hero_ids(ps: Seq<LineupPieceData>) -> Seq<Seq<char>> {
    ps.map_values(|p: LineupPieceData| p.hero_id@)
}

/// The hero ids of the carries.
pub open spec fn carry_ids(ps: Seq<LineupPieceData>) -> Seq<Seq<char>>
    decreases ps.len(),
{
    if ps.len() == 0 {
        Seq::empty()
    } else if ps.last().is_carry_hero {
        carry_ids(ps.drop_last()).push(ps.last().hero_id@)
    } else {
        carry_ids(ps.drop_last())
    }
}

/// A number read the way `str::parse::<i32>` reads it, 0 where it does not.
pub open spec fn number_or_zero(s: Seq<char>) -> int {
    match parse_i32_spec(s) {
        Some(v) => v as int,
        None => 0,
    }
}

/// A tank: not a carry, in the front two rows, and a known hero with more
/// than 30 armor or more than 700 health.
pub open spec fn is_tank(heroes: Seq<(String, HeroData)>, p: LineupPieceData) -> bool {
    &&& !p.is_carry_hero
    &&& p.row <= 2
    &&& match lookup(keys_of(heroes), p.hero_id@) {
        Some(h) => number_or_zero(h.armor@) > 30 || number_or_zero(h.initHP@) > 700,
        None => false,
    }
}

/// The hero ids of the tanks.
pub open spec fn tank_ids(heroes: Seq<(String, HeroData)>, ps: Seq<LineupPieceData>) -> Seq<Seq<char>>
    decreases ps.len(),
{
    if ps.len() == 0 {
        Seq::empty()
    } else if is_tank(heroes, ps.last()) {
        tank_ids(heroes, ps.drop_last()).push(ps.last().hero_id@)
    } else {
        tank_ids(heroes, ps.drop_last())
    }
}

/// The items of the carries, piece by piece.
pub open spec fn carry_items(ps: Seq<LineupPieceData>) -> Seq<Seq<char>>
    decreases ps.len(),
{
    if ps.len() == 0 {
        Seq::empty()
    } else if ps.last().is_carry_hero {
        carry_items(ps.drop_last()) + views(ps.last().equipment_ids@)
    } else {
        carry_items(ps.drop_last())
    }
}

/// The items of the front-row pieces that are not carries, piece by piece.
pub open spec fn front_items(ps: Seq<LineupPieceData>) -> Seq<Seq<char>>
    decreases ps.len(),
{
    if ps.len() == 0 {
        Seq::empty()
    } else if !ps.last().is_carry_hero && ps.last().row <= 2 && ps.last().equipment_ids@.len() > 0 {
        front_items(ps.drop_last()) + views(ps.last().equipment_ids@)
    } else {
        front_items(ps.drop_last())
    }
}

/// The costs of the known heroes among `ids`.
pub open spec fn known_costs(heroes: Seq<(String, HeroData)>, ids: Seq<Seq<char>>) -> Seq<i32>
    decreases ids.len(),
{
    if ids.len() == 0 {
        Seq::empty()
    } else {
        match lookup(keys_of(heroes), ids.last()) {
            Some(h) => known_costs(heroes, ids.drop_last()).push(h.cost),
            None => known_costs(heroes, ids.drop_last()),
        }
    }
}

fn piece_ids(ps: &Vec<LineupPieceData>) -> (r: Vec<String>)
    ensures
        views(r@) == hero_ids(ps@),
{
    let mut r: Vec<String> = Vec::new();
    let mut i: usize = 0;
    while i < ps.len()
        invariant
            i <= ps@.len(),
            views(r@) == hero_ids(ps@.subrange(0, i as int)),
        decreases ps@.len() - i,
    {
        let ghost before = r@;
        r.push(ps[i].hero_id.clone());
        assert(views(r@) =~= views(before).push(ps@[i as int].hero_id@));
        i = i + 1;
        assert(hero_ids(ps@.subrange(0, i as int)) =~= hero_ids(ps@.subrange(0, i - 1)).push(ps@[i - 1].hero_id@));
        assert(views(r@) =~= hero_ids(ps@.subrange(0, i as int)));
    }
    assert(ps@.subrange(0, i as int) =~= ps@);
    r
}

fn carries_of(ps: &Vec<LineupPieceData>) -> (r: Vec<String>)
    ensures
        views(r@) == carry_ids(ps@),
{
    let mut r: Vec<String> = Vec::new();
    let mut i: usize = 0;
    while i < ps.len()
        invariant
            i <= ps@.len(),
            views(r@) == carry_ids(ps@.subrange(0, i as int)),
        decreases ps@.len() - i,
    {
        assert(ps@.subrange(0, i + 1).drop_last() =~= ps@.subrange(0, i as int));
        if ps[i].is_carry_hero {
            r.push(ps[i].hero_id.clone());
        }
        i = i + 1;
        assert(views(r@) =~= carry_ids(ps@.subrange(0, i as int)));
    }
    assert(ps@.subrange(0, i as int) =~= ps@);
    r
}

fn tank_check(index: &GameDataIndex, p: &LineupPieceData) -> (b: bool)
    ensures
        b == is_tank(index.heroes_by_id@, *p),
{
    if p.is_carry_hero || p.row > 2 {
        return false;
    }
    match index.hero(p.hero_id.as_str()) {
        Some(h) => {
            let armor: i32 = match parse_i32(h.armor.as_str()) {
                Some(v) => v,
                None => 0,
            };
            let hp: i32 = match parse_i32(h.initHP.as_str()) {
                Some(v) => v,
                None => 0,
            };
            armor > 30 || hp > 700
        },
        None => false,
    }
}

fn tanks_of(index: &GameDataIndex, ps: &Vec<LineupPieceData>) -> (r: Vec<String>)
    ensures
        views(r@) == tank_ids(index.heroes_by_id@, ps@),
{
    let mut r: Vec<String> = Vec::new();
    let mut i: usize = 0;
    while i < ps.len()
        invariant
            i <= ps@.len(),
            views(r@) == tank_ids(index.heroes_by_id@, ps@.subrange(0, i as int)),
        decreases ps@.len() - i,
    {
        assert(ps@.subrange(0, i + 1).drop_last() =~= ps@.subrange(0, i as int));
        if tank_check(index, &ps[i]) {
            r.push(ps[i].hero_id.clone());
        }
        i = i + 1;
        assert(views(r@) =~= tank_ids(index.heroes_by_id@, ps@.subrange(0, i as int)));
    }
    assert(ps@.subrange(0, i as int) =~= ps@);
    r
}

fn items_of_pieces(ps: &Vec<LineupPieceData>, carries: bool) -> (r: Vec<String>)
    ensures
        carries ==> views(r@) == carry_items(ps@),
        !carries ==> views(r@) == front_items(ps@),
{
    let mut r: Vec<String> = Vec::new();
    let mut i: usize = 0;
    while i < ps.len()
        invariant
            i <= ps@.len(),
            carries ==> views(r@) == carry_items(ps@.subrange(0, i as int)),
            !carries ==> views(r@) == front_items(ps@.subrange(0, i as int)),
        decreases ps@.len() - i,
    {
        assert(ps@.subrange(0, i + 1).drop_last() =~= ps@.subrange(0, i as int));
        let p = &ps[i];
        let take = if carries {
            p.is_carry_hero
        } else {
            !p.is_carry_hero && p.row <= 2 && p.equipment_ids.len() > 0
        };
        if take {
            let ghost before = r@;
            let mut more = clone_strings(&p.equipment_ids);
            let ghost mv = more@;
            r.append(&mut more);
            assert(views(r@) =~= views(before) + views(mv));
        }
        i = i + 1;
        assert(carries ==> views(r@) =~= carry_items(ps@.subrange(0, i as int)));
        assert(!carries ==> views(r@) =~= front_items(ps@.subrange(0, i as int)));
    }
    assert(ps@.subrange(0, i as int) =~= ps@);
    r
}

fn costs_of(index: &GameDataIndex, ids: &Vec<String>) -> (r: Vec<i32>)
    ensures
        r@ == known_costs(index.heroes_by_id@, views(ids@)),
{
    let mut r: Vec<i32> = Vec::new();
    let mut i: usize = 0;
    while i < ids.len()
        invariant
            i <= ids@.len(),
            r@ == known_costs(index.heroes_by_id@, views(ids@).subrange(0, i as int)),
        decreases ids@.len() - i,
    {
        assert(views(ids@).subrange(0, i + 1).drop_last() =~= views(ids@).subrange(0, i as int));
        match index.hero(ids[i].as_str()) {
            Some(h) => r.push(h.cost),
            None => {},
        }
        i = i + 1;
    }
    assert(views(ids@).subrange(0, i as int) =~= views(ids@));
    r
}

// ---------------------------------------------------------------------------
// Trait targets and strategy texts
// ---------------------------------------------------------------------------

pub open spec fn pair_views(t: Seq<(String, i32)>) -> Seq<(Seq<char>, i32)> {
    t.map_values(|e: (String, i32)| (e.0@, e.1))
}

/// The position of the last entry with key `k`, or -1.
pub open spec fn key_pos(t: Seq<(Seq<char>, i32)>, k: Seq<char>) -> int
    decreases t.len(),
{
    if t.len() == 0 {
        -1
    } else if t.last().0 == k {
        t.len() - 1
    } else {
        key_pos(t.drop_last(), k)
    }
}

/// `t` with the value of `k` set to `v`: in place where `k` has an entry, at
/// the end otherwise.
pub open spec fn put(t: Seq<(Seq<char>, i32)>, k: Seq<char>, v: i32) -> Seq<(Seq<char>, i32)> {
    let i = key_pos(t, k);
    if i >= 0 {
        t.update(i, (k, v))
    } else {
        t.push((k, v))
    }
}

/// The table of a list of pairs, a later pair of a key replacing an earlier
/// one.
pub open spec fn collected(pairs: Seq<(Seq<char>, i32)>) -> Seq<(Seq<char>, i32)>
    decreases pairs.len(),
{
    if pairs.len() == 0 {
        Seq::empty()
    } else {
        put(collected(pairs.drop_last()), pairs.last().0, pairs.last().1)
    }
}

proof fn lemma_key_pos_range(t: Seq<(Seq<char>, i32)>, k: Seq<char>)
    ensures
        -1 <= key_pos(t, k) < t.len(),
        key_pos(t, k) >= 0 ==> t[key_pos(t, k)].0 == k,
    decreases t.len(),
{
    if t.len() > 0 && t.last().0 != k {
        lemma_key_pos_range(t.drop_last(), k);
    }
}

fn put_entry(t: &mut Vec<(String, i32)>, k: &str, v: i32)
    ensures
        pair_views(final(t)@) == put(pair_views(old(t)@), k@, v),
{
    let ghost tv = pair_views(t@);
    let mut pos: Option<usize> = None;
    let mut i: usize = 0;
    while i < t.len()
        invariant
            i <= t@.len(),
            tv == pair_views(t@),
            match pos {
                Some(p) => p < i && key_pos(tv.subrange(0, i as int), k@) == p as int,
                None => key_pos(tv.subrange(0, i as int), k@) == -1,
            },
        decreases t@.len() - i,
    {
        assert(tv.subrange(0, i + 1).drop_last() =~= tv.subrange(0, i as int));
        if str_eq(t[i].0.as_str(), k) {
            pos = Some(i);
        }
        i = i + 1;
    }
    assert(tv.subrange(0, i as int) =~= tv);
    proof {
        lemma_key_pos_range(tv, k@);
    }
    match pos {
        Some(p) => {
            t.set(p, (owned(k), v));
            assert(pair_views(t@) =~= tv.update(p as int, (k@, v)));
        },
        None => {
            t.push((owned(k), v));
            assert(pair_views(t@) =~= tv.push((k@, v)));
        },
    }
}

/// The official trait counts as pairs.
pub open spec fn contact_pairs(cs: Seq<TraitContactData>) -> Seq<(Seq<char>, i32)> {
    cs.map_values(|c: TraitContactData| (c.id@, c.count))
}

/// The counted trait summaries as pairs.
pub open spec fn summary_pairs(s: Seq<TraitSummaryView>) -> Seq<(Seq<char>, i32)> {
    s.map_values(|x: TraitSummaryView| (x.trait_id, x.count))
}

fn collect_pairs(pairs: &Vec<(String, i32)>) -> (r: Vec<(String, i32)>)
    ensures
        pair_views(r@) == collected(pair_views(pairs@)),
{
    let mut r: Vec<(String, i32)> = Vec::new();
    let mut i: usize = 0;
    let ghost pv = pair_views(pairs@);
    assert(pair_views(r@) =~= collected(pv.subrange(0, 0)));
    while i < pairs.len()
        invariant
            i <= pairs@.len(),
            pv == pair_views(pairs@),
            pair_views(r@) == collected(pv.subrange(0, i as int)),
        decreases pairs@.len() - i,
    {
        assert(pv.subrange(0, i + 1).drop_last() =~= pv.subrange(0, i as int));
        put_entry(&mut r, pairs[i].0.as_str(), pairs[i].1);
        i = i + 1;
    }
    assert(pv.subrange(0, i as int) =~= pv);
    r
}

/// A strategy text under its key when it is not empty.
pub open spec fn text_entry(key: Seq<char>, text: Seq<char>) -> Seq<(Seq<char>, Seq<char>)> {
    if text.len() > 0 {
        seq![(key, text)]
    } else {
        Seq::empty()
    }
}

/// The strategy texts of a lineup, by key: early game, roll timing,
/// positioning, items and augments, each where it is not empty.
pub open spec fn strategy_pairs(d: LineupDetailData) -> Seq<(Seq<char>, Seq<char>)> {
    text_entry("early"@, d.early_info@) + text_entry("roll_timing"@, d.d_time@) + text_entry(
        "positioning"@,
        d.location_info@,
    ) + text_entry("equipment"@, d.equipment_info@) + text_entry("augment"@, d.hex_info@)
}

pub open spec fn text_pair_views(t: Seq<(String, String)>) -> Seq<(Seq<char>, Seq<char>)> {
    t.map_values(|e: (String, String)| (e.0@, e.1@))
}

fn push_text(t: &mut Vec<(String, String)>, key: &str, text: &String)
    ensures
        text_pair_views(final(t)@) == text_pair_views(old(t)@) + text_entry(key@, text@),
{
    if !text.as_str().is_empty() {
        let ghost before = text_pair_views(t@);
        t.push((owned(key), text.clone()));
        assert(text_pair_views(t@) =~= before + text_entry(key@, text@));
    } else {
        assert(text_pair_views(t@) =~= text_pair_views(t@) + text_entry(key@, text@));
    }
}

fn strategy_texts_of(d: &LineupDetailData) -> (r: Vec<(String, String)>)
    ensures
        text_pair_views(r@) == strategy_pairs(*d),
{
    let mut r: Vec<(String, String)> = Vec::new();
    assert(text_pair_views(r@) =~= Seq::empty());
    push_text(&mut r, "early", &d.early_info);
    push_text(&mut r, "roll_timing", &d.d_time);
    push_text(&mut r, "positioning", &d.location_info);
    push_text(&mut r, "equipment", &d.equipment_info);
    push_text(&mut r, "augment", &d.hex_info);
    assert(text_pair_views(r@) =~= strategy_pairs(*d));
    r
}

// ---------------------------------------------------------------------------
// Mode data
// ---------------------------------------------------------------------------

pub open spec fn texts_json(t: Seq<Seq<char>>) -> JsonView {
    JsonView::Array(t.map_values(|x: Seq<char>| JsonView::Str(x)))
}

/// A god reward as a JSON object.
pub open spec fn god_json(g: GodRewardData) -> JsonView {
    JsonView::Object(
        seq![
            ("god_id"@, JsonView::Str(g.god_id@)),
            ("stage"@, JsonView::Int(g.stage as i64)),
            ("wish_ids"@, texts_json(views(g.wish_ids@))),
        ],
    )
}

/// An unlock task as a JSON object.
pub open spec fn task_json(t: UnlockTaskData) -> JsonView {
    JsonView::Object(
        seq![
            ("chess_id"@, JsonView::Str(t.chess_id@)),
            ("hero_id"@, JsonView::Str(t.hero_id@)),
            ("task_id"@, JsonView::Str(t.task_id@)),
        ],
    )
}

/// A trait count as a JSON object.
pub open spec fn contact_json(c: TraitContactData) -> JsonView {
    JsonView::Object(
        seq![
            ("color"@, JsonView::Int(c.color as i64)),
            ("count"@, JsonView::Int(c.count as i64)),
            ("id"@, JsonView::Str(c.id@)),
            ("level"@, JsonView::Int(c.level as i64)),
            ("type"@, JsonView::Str(c.contact_type@)),
        ],
    )
}

/// The mode data of a lineup: its chosen trait, god rewards and unlock
/// tasks.
pub open spec fn mode_json(d: LineupDetailData) -> JsonView {
    JsonView::Object(
        seq![
            ("chosen_contact"@, match d.chosen_contact {
                Some(c) => contact_json(c),
                None => JsonView::Null,
            }),
            ("god_rewards"@, JsonView::Array(d.god_rewards@.map_values(|g: GodRewardData| god_json(g)))),
            ("unlock_tasks"@, JsonView::Array(d.unlock_tasks@.map_values(|t: UnlockTaskData| task_json(t)))),
        ],
    )
}

fn texts_value(t: &Vec<String>) -> (r: JsonValue)
    ensures
        r@ == texts_json(views(t@)),
{
    let mut items: Vec<JsonValue> = Vec::new();
    let mut i: usize = 0;
    while i < t.len()
        invariant
            i <= t@.len(),
            items@.len() == i,
            forall|k: int| 0 <= k < i ==> (#[trigger] items@[k])@ == JsonView::Str(t@[k]@),
        decreases t@.len() - i,
    {
        items.push(JsonValue::Str(t[i].clone()));
        i = i + 1;
    }
    let r = JsonValue::Array(items);
    proof {
        reveal_with_fuel(crate::json::json_view, 2);
    }
    assert(r@->Array_0 =~= views(t@).map_values(|x: Seq<char>| JsonView::Str(x)));
    r
}

fn god_value(g: &GodRewardData) -> (r: JsonValue)
    ensures
        r@ == god_json(*g),
{
    let mut m: Vec<(String, JsonValue)> = Vec::new();
    m.push((owned("god_id"), JsonValue::Str(g.god_id.clone())));
    m.push((owned("stage"), JsonValue::Int(g.stage as i64)));
    m.push((owned("wish_ids"), texts_value(&g.wish_ids)));
    let r = JsonValue::Object(m);
    proof {
        reveal_with_fuel(crate::json::json_view, 2);
    }
    assert(r@->Object_0 =~= god_json(*g)->Object_0);
    r
}

fn task_value(t: &UnlockTaskData) -> (r: JsonValue)
    ensures
        r@ == task_json(*t),
{
    let mut m: Vec<(String, JsonValue)> = Vec::new();
    m.push((owned("chess_id"), JsonValue::Str(t.chess_id.clone())));
    m.push((owned("hero_id"), JsonValue::Str(t.hero_id.clone())));
    m.push((owned("task_id"), JsonValue::Str(t.task_id.clone())));
    let r = JsonValue::Object(m);
    proof {
        reveal_with_fuel(crate::json::json_view, 2);
    }
    assert(r@->Object_0 =~= task_json(*t)->Object_0);
    r
}

fn contact_value(c: &TraitContactData) -> (r: JsonValue)
    ensures
        r@ == contact_json(*c),
{
    let mut m: Vec<(String, JsonValue)> = Vec::new();
    m.push((owned("color"), JsonValue::Int(c.color as i64)));
    m.push((owned("count"), JsonValue::Int(c.count as i64)));
    m.push((owned("id"), JsonValue::Str(c.id.clone())));
    m.push((owned("level"), JsonValue::Int(c.level as i64)));
    m.push((owned("type"), JsonValue::Str(c.contact_type.clone())));
    let r = JsonValue::Object(m);
    proof {
        reveal_with_fuel(crate::json::json_view, 2);
    }
    assert(r@->Object_0 =~= contact_json(*c)->Object_0);
    r
}

/// The mode data of a lineup as a JSON object.
pub fn mode_value(d: &LineupDetailData) -> (r: JsonValue)
    ensures
        r@ == mode_json(*d),
{
    let chosen = match &d.chosen_contact {
        Some(c) => contact_value(c),
        None => JsonValue::Null,
    };
    let mut gods: Vec<JsonValue> = Vec::new();
    let mut i: usize = 0;
    while i < d.god_rewards.len()
        invariant
            i <= d.god_rewards@.len(),
            gods@.len() == i,
            forall|k: int| 0 <= k < i ==> (#[trigger] gods@[k])@ == god_json(d.god_rewards@[k]),
        decreases d.god_rewards@.len() - i,
    {
        gods.push(god_value(&d.god_rewards[i]));
        i = i + 1;
    }
    let mut tasks: Vec<JsonValue> = Vec::new();
    let mut j: usize = 0;
    while j < d.unlock_tasks.len()
        invariant
            j <= d.unlock_tasks@.len(),
            tasks@.len() == j,
            forall|k: int| 0 <= k < j ==> (#[trigger] tasks@[k])@ == task_json(d.unlock_tasks@[k]),
        decreases d.unlock_tasks@.len() - j,
    {
        tasks.push(task_value(&d.unlock_tasks[j]));
        j = j + 1;
    }
    let gv = JsonValue::Array(gods);
    let tv = JsonValue::Array(tasks);
    assert(gv@->Array_0 =~= d.god_rewards@.map_values(|g: GodRewardData| god_json(g)));
    assert(tv@->Array_0 =~= d.unlock_tasks@.map_values(|t: UnlockTaskData| task_json(t)));
    let mut m: Vec<(String, JsonValue)> = Vec::new();
    m.push((owned("chosen_contact"), chosen));
    m.push((owned("god_rewards"), gv));
    m.push((owned("unlock_tasks"), tv));
    let r = JsonValue::Object(m);
    proof {
        reveal_with_fuel(crate::json::json_view, 2);
    }
    assert(r@->Object_0 =~= mode_json(*d)->Object_0);
    r
}

// ---------------------------------------------------------------------------
// Play-style tags
// ---------------------------------------------------------------------------

pub open spec fn cost_max(s: Seq<i32>) -> int
    decreases s.len(),
{
    if s.len() <= 1 {
        if s.len() == 1 { s[0] as int } else { 0 }
    } else {
        let m = cost_max(s.drop_last());
        if s.last() > m { s.last() as int } else { m }
    }
}

pub open spec fn cost_min(s: Seq<i32>) -> int
    decreases s.len(),
{
    if s.len() <= 1 {
        if s.len() == 1 { s[0] as int } else { 0 }
    } else {
        let m = cost_min(s.drop_last());
        if s.last() < m { s.last() as int } else { m }
    }
}

pub open spec fn cost_sum(s: Seq<i32>) -> int
    decreases s.len(),
{
    if s.len() == 0 {
        0
    } else {
        cost_sum(s.drop_last()) + s.last()
    }
}

pub open spec fn tag_when(b: bool, t: PlaystyleTag) -> Seq<PlaystyleTag> {
    if b {
        seq![t]
    } else {
        Seq::empty()
    }
}

/// The play-style tags of a lineup from its carry costs, quality, number of
/// core items, number of recommended augments and category. Without carries
/// a lineup is standard only; otherwise it is standard, and: a 1-cost reroll
/// when a carry costs 1; a 2-cost reroll when one costs 2 and the average is
/// at most 2.5; a 3-cost reroll when one costs 3, the average is at most 3.5
/// and none costs over 4; fast 8 when the dearest costs 4+ and the cheapest
/// 3+; fast 9 when they cost 5+ and 4+; strict about items with three or more
/// core items, flexible otherwise; an economy opening at quality A or B; a
/// late-game cap when a carry costs 5+ or the quality is S; augment-enabled
/// with one or two recommended augments; mode-special in the entertainment
/// category.
pub open spec fn playstyle_tags(
    costs: Seq<i32>,
    quality: Seq<char>,
    core_items: int,
    hexes: int,
    category: Option<Seq<char>>,
) -> Seq<PlaystyleTag> {
    if costs.len() == 0 {
        seq![PlaystyleTag::Standard]
    } else {
        let mx = cost_max(costs);
        let mn = cost_min(costs);
        let sum = cost_sum(costs);
        let n = costs.len() as int;
        seq![PlaystyleTag::Standard] + tag_when(mn == 1 && costs.contains(1i32), PlaystyleTag::Reroll1Cost)
            + tag_when(costs.contains(2i32) && 2 * sum <= 5 * n, PlaystyleTag::Reroll2Cost) + tag_when(
            costs.contains(3i32) && 2 * sum <= 7 * n && mx <= 4,
            PlaystyleTag::Reroll3Cost,
        ) + tag_when(mx >= 4 && mn >= 3, PlaystyleTag::Fast8) + tag_when(mx >= 5 && mn >= 4, PlaystyleTag::Fast9)
            + (if core_items >= 3 { seq![PlaystyleTag::ItemStrict] } else { seq![PlaystyleTag::ItemFlexible] })
            + tag_when(quality == "A"@ || quality == "B"@, PlaystyleTag::EconOpen) + tag_when(
            mx >= 5 || quality == "S"@,
            PlaystyleTag::LateCap,
        ) + tag_when(0 < hexes <= 2, PlaystyleTag::AugmentEnabled) + tag_when(
            category == Some("趣味娱乐"@),
            PlaystyleTag::ModeSpecial,
        )
    }
}

fn push_tag_when(tags: &mut Vec<PlaystyleTag>, b: bool, t: PlaystyleTag)
    ensures
        final(tags)@ == old(tags)@ + tag_when(b, t),
{
    if b {
        tags.push(t);
        assert(tags@ =~= old(tags)@ + seq![t]);
    } else {
        assert(tags@ =~= old(tags)@ + Seq::<PlaystyleTag>::empty());
    }
}

/// The dearest and cheapest cost, the total, and whether a cost of 1, 2 or 3
/// occurs.
fn cost_stats(carry_costs: &[i32]) -> (r: (i32, i32, i128, bool, bool, bool))
    requires
        carry_costs@.len() > 0,
    ensures
        r.0 == cost_max(carry_costs@),
        r.1 == cost_min(carry_costs@),
        r.2 == cost_sum(carry_costs@),
        r.3 == carry_costs@.contains(1i32),
        r.4 == carry_costs@.contains(2i32),
        r.5 == carry_costs@.contains(3i32),
        -0x8000_0000 * carry_costs@.len() <= r.2 <= 0x7fff_ffff * carry_costs@.len(),
{
    let n = carry_costs.len();
    let ghost cs = carry_costs@;
    let mut mx: i32 = carry_costs[0];
    let mut mn: i32 = carry_costs[0];
    let mut sum: i128 = carry_costs[0] as i128;
    let mut has1 = carry_costs[0] == 1;
    let mut has2 = carry_costs[0] == 2;
    let mut has3 = carry_costs[0] == 3;
    let mut i: usize = 1;
    assert(cs.subrange(0, 1).drop_last() =~= Seq::<i32>::empty());
    assert(cs.subrange(0, 1) =~= seq![cs[0]]);
    assert(cs.subrange(0, 1).last() == cs[0]);
    assert(cost_sum(cs.subrange(0, 1)) == cost_sum(Seq::<i32>::empty()) + cs[0]);
    assert(seq![cs[0]].contains(cs[0]));
    assert(has3 == cs.subrange(0, 1).contains(3i32));
    while i < n
        invariant
            cs == carry_costs@,
            n == cs.len(),
            1 <= i <= n,
            mx == cost_max(cs.subrange(0, i as int)),
            mn == cost_min(cs.subrange(0, i as int)),
            sum == cost_sum(cs.subrange(0, i as int)),
            -0x8000_0000 * i <= sum <= 0x7fff_ffff * i,
            has1 == cs.subrange(0, i as int).contains(1i32),
            has2 == cs.subrange(0, i as int).contains(2i32),
            has3 == cs.subrange(0, i as int).contains(3i32),
        decreases n - i,
    {
        let c = carry_costs[i];
        assert(cs.subrange(0, i + 1).drop_last() =~= cs.subrange(0, i as int));
        assert(cs.subrange(0, i + 1).last() == c);
        if c > mx {
            mx = c;
        }
        if c < mn {
            mn = c;
        }
        sum = sum + c as i128;
        has1 = has1 || c == 1;
        has2 = has2 || c == 2;
        has3 = has3 || c == 3;
        i = i + 1;
        assert(cs.subrange(0, i as int).contains(1i32) == (cs.subrange(0, i - 1).contains(1i32) || c == 1)) by {
            assert(cs.subrange(0, i as int) =~= cs.subrange(0, i - 1).push(c));
        }
        assert(cs.subrange(0, i as int).contains(2i32) == (cs.subrange(0, i - 1).contains(2i32) || c == 2)) by {
            assert(cs.subrange(0, i as int) =~= cs.subrange(0, i - 1).push(c));
        }
        assert(cs.subrange(0, i as int).contains(3i32) == (cs.subrange(0, i - 1).contains(3i32) || c == 3)) by {
            assert(cs.subrange(0, i as int) =~= cs.subrange(0, i - 1).push(c));
        }
    }
    assert(cs.subrange(0, n as int) =~= cs);
    assert(cs.subrange(0, 1).contains(1i32) == (cs[0] == 1)) by {
        assert(cs.subrange(0, 1) =~= seq![cs[0]]);
    }
    (mx, mn, sum, has1, has2, has3)
}

impl LineupProfileBuilder {
    /// The play-style tags of a lineup (see `playstyle_tags`).
    #[verifier::rlimit(40)]
    pub fn infer_playstyle_tags(
        carry_costs: &[i32],
        quality: &str,
        core_equipment_ids: &[String],
        recommended_hex_ids: &[String],
        category: Option<&str>,
    ) -> (tags: Vec<PlaystyleTag>)
        ensures
            tags@ == playstyle_tags(
                carry_costs@,
                quality@,
                core_equipment_ids@.len() as int,
                recommended_hex_ids@.len() as int,
                match category {
                    Some(c) => Some(c@),
                    None => None,
                },
            ),
    {
        let mut tags: Vec<PlaystyleTag> = Vec::new();
        let n = carry_costs.len();
        if n == 0 {
            tags.push(PlaystyleTag::Standard);
            assert(tags@ =~= seq![PlaystyleTag::Standard]);
            return tags;
        }
        let (mx, mn, sum, has1, has2, has3) = cost_stats(carry_costs);
        let count: i128 = n as i128;
        tags.push(PlaystyleTag::Standard);
        assert(tags@ =~= seq![PlaystyleTag::Standard]);
        push_tag_when(&mut tags, mn == 1 && has1, PlaystyleTag::Reroll1Cost);
        push_tag_when(&mut tags, has2 && 2 * sum <= 5 * count, PlaystyleTag::Reroll2Cost);
        push_tag_when(&mut tags, has3 && 2 * sum <= 7 * count && mx <= 4, PlaystyleTag::Reroll3Cost);
        push_tag_when(&mut tags, mx >= 4 && mn >= 3, PlaystyleTag::Fast8);
        push_tag_when(&mut tags, mx >= 5 && mn >= 4, PlaystyleTag::Fast9);
        if core_equipment_ids.len() >= 3 {
            tags.push(PlaystyleTag::ItemStrict);
        } else {
            tags.push(PlaystyleTag::ItemFlexible);
        }
        push_tag_when(&mut tags, str_eq(quality, "A") || str_eq(quality, "B"), PlaystyleTag::EconOpen);
        push_tag_when(&mut tags, mx >= 5 || str_eq(quality, "S"), PlaystyleTag::LateCap);
        push_tag_when(
            &mut tags,
            !recommended_hex_ids.is_empty() && recommended_hex_ids.len() <= 2,
            PlaystyleTag::AugmentEnabled,
        );
        let special = match category {
            Some(c) => str_eq(c, "趣味娱乐"),
            None => false,
        };
        push_tag_when(&mut tags, special, PlaystyleTag::ModeSpecial);
        tags
    }
}

// ---------------------------------------------------------------------------
// Profiles
// ---------------------------------------------------------------------------

/// Base strength by quality: S 100, A 80, B 60, anything else 40.
pub open spec fn tier_of(q: Seq<char>) -> i32 {
    if q == "S"@ {
        100
    } else if q == "A"@ {
        80
    } else if q == "B"@ {
        60
    } else {
        40
    }
}

/// The trait targets of a lineup: its official counts where it has any, else
/// the counts of its pieces' traits, sorted as the game data index sorts
/// them; a later count of a trait replaces an earlier one.
pub open spec fn targets_of(targets: Seq<(Seq<char>, i32)>, d: LineupDetailData, index: GameDataIndex) -> bool {
    if d.official_traits@.len() > 0 {
        targets == collected(contact_pairs(d.official_traits@))
    } else {
        exists|s: Seq<TraitSummaryView>|
            sorted_summaries(piece_summaries(index.traits@, index.heroes_by_id@, d.final_heroes@), s) && targets
                == collected(summary_pairs(s))
    }
}

/// `p` is the profile of `card` under the game data `index`.
pub open spec fn built_from(p: LineupProfile, card: LineupCardData, index: GameDataIndex) -> bool {
    let d = card.detail;
    let heroes = index.heroes_by_id@;
    &&& p.lineup_id@ == card.id@
    &&& p.name@ == card.name@
    &&& p.base_tier == tier_of(card.quality@)
    &&& views(p.final_hero_ids@) == hero_ids(d.final_heroes@)
    &&& views(p.carry_hero_ids@) == carry_ids(d.final_heroes@)
    &&& views(p.tank_hero_ids@) == tank_ids(heroes, d.final_heroes@)
    &&& views(p.core_equipment_ids@) == carry_items(d.final_heroes@)
    &&& views(p.tank_equipment_ids@) == front_items(d.final_heroes@)
    &&& p.equipment_order_ids@ == d.equipment_order_ids@
    &&& p.recommended_hex_ids@ == d.recommended_hex_ids@
    &&& p.replacement_hex_ids@ == d.replacement_hex_ids@
    &&& views(p.early_hero_ids@) == hero_ids(d.early_heroes@)
    &&& views(p.mid_hero_ids@) == hero_ids(d.mid_heroes@)
    &&& targets_of(pair_views(p.trait_targets@), d, index)
    &&& text_pair_views(p.strategy_texts@) == strategy_pairs(d)
    &&& p.mode_specific@ == mode_json(d)
    &&& p.carry_costs@ == known_costs(heroes, carry_ids(d.final_heroes@))
    &&& p.playstyle_tags@ == playstyle_tags(
        p.carry_costs@,
        card.quality@,
        carry_items(d.final_heroes@).len() as int,
        d.recommended_hex_ids@.len() as int,
        opt_text(card.category),
    )
    &&& opt_text(p.category) == opt_text(card.category)
}

/// The official counts, or the counted pieces when a lineup has none, do not
/// overflow.
pub open spec fn card_fits(card: LineupCardData, index: GameDataIndex) -> bool {
    card.detail.official_traits@.len() > 0 || counts_fit(piece_traits(index.heroes_by_id@, card.detail.final_heroes@))
}

fn contact_targets(cs: &Vec<TraitContactData>) -> (r: Vec<(String, i32)>)
    ensures
        pair_views(r@) == contact_pairs(cs@),
{
    let mut r: Vec<(String, i32)> = Vec::new();
    let mut i: usize = 0;
    while i < cs.len()
        invariant
            i <= cs@.len(),
            pair_views(r@) == contact_pairs(cs@.subrange(0, i as int)),
        decreases cs@.len() - i,
    {
        let ghost before = pair_views(r@);
        r.push((cs[i].id.clone(), cs[i].count));
        assert(pair_views(r@) =~= before.push((cs@[i as int].id@, cs@[i as int].count)));
        i = i + 1;
        assert(contact_pairs(cs@.subrange(0, i as int)) =~= contact_pairs(cs@.subrange(0, i - 1)).push(
            (cs@[i - 1].id@, cs@[i - 1].count),
        ));
    }
    assert(cs@.subrange(0, i as int) =~= cs@);
    r
}

fn summary_targets(s: &Vec<crate::data_types::RuleTraitSnapshot>) -> (r: Vec<(String, i32)>)
    ensures
        pair_views(r@) == summary_pairs(summary_views(s@)),
{
    let mut r: Vec<(String, i32)> = Vec::new();
    let mut i: usize = 0;
    while i < s.len()
        invariant
            i <= s@.len(),
            pair_views(r@) == summary_pairs(summary_views(s@.subrange(0, i as int))),
        decreases s@.len() - i,
    {
        let ghost before = pair_views(r@);
        r.push((s[i].trait_id.clone(), s[i].count));
        assert(pair_views(r@) =~= before.push((s@[i as int].trait_id@, s@[i as int].count)));
        i = i + 1;
        assert(summary_pairs(summary_views(s@.subrange(0, i as int))) =~= summary_pairs(
            summary_views(s@.subrange(0, i - 1)),
        ).push((s@[i - 1].trait_id@, s@[i - 1].count)));
    }
    assert(s@.subrange(0, i as int) =~= s@);
    r
}

impl LineupProfileBuilder {
    /// The profile of a lineup card under the game data.
    pub fn build(card: &LineupCardData, index: &GameDataIndex) -> (p: LineupProfile)
        requires
            card_fits(*card, *index),
        ensures
            built_from(p, *card, *index),
    {
        let detail = &card.detail;
        let carry_ids = carries_of(&detail.final_heroes);
        let tank_ids = tanks_of(index, &detail.final_heroes);
        let core_equipment_ids = items_of_pieces(&detail.final_heroes, true);
        let tank_equipment_ids = items_of_pieces(&detail.final_heroes, false);
        let pairs = if detail.official_traits.len() > 0 {
            contact_targets(&detail.official_traits)
        } else {
            let none: Vec<TraitContactData> = Vec::new();
            let summaries = index.trait_summaries(detail.final_heroes.as_slice(), none.as_slice());
            assert(!(exists|j: int| 0 <= j < none@.len() && crate::game_data_index::contact_active(#[trigger] none@[j])));
            summary_targets(&summaries)
        };
        let trait_targets = collect_pairs(&pairs);
        let carry_costs = costs_of(index, &carry_ids);
        let base_tier: i32 = if str_eq(card.quality.as_str(), "S") {
            100
        } else if str_eq(card.quality.as_str(), "A") {
            80
        } else if str_eq(card.quality.as_str(), "B") {
            60
        } else {
            40
        };
        let strategy_texts = strategy_texts_of(detail);
        let category: Option<&str> = match &card.category {
            Some(c) => Some(c.as_str()),
            None => None,
        };
        let playstyle_tags = Self::infer_playstyle_tags(
            carry_costs.as_slice(),
            card.quality.as_str(),
            core_equipment_ids.as_slice(),
            detail.recommended_hex_ids.as_slice(),
            category,
        );
        let category = match &card.category {
            Some(c) => Some(c.clone()),
            None => None,
        };
        LineupProfile {
            lineup_id: card.id.clone(),
            name: card.name.clone(),
            base_tier,
            playstyle_tags,
            final_hero_ids: piece_ids(&detail.final_heroes),
            carry_hero_ids: carry_ids,
            tank_hero_ids: tank_ids,
            core_equipment_ids,
            tank_equipment_ids,
            equipment_order_ids: clone_strings(&detail.equipment_order_ids),
            recommended_hex_ids: clone_strings(&detail.recommended_hex_ids),
            replacement_hex_ids: clone_strings(&detail.replacement_hex_ids),
            early_hero_ids: piece_ids(&detail.early_heroes),
            mid_hero_ids: piece_ids(&detail.mid_heroes),
            trait_targets,
            strategy_texts,
            mode_specific: mode_value(detail),
            carry_costs,
            category,
        }
    }

    /// The profiles of lineup cards, in order.
    pub fn build_all(cards: &[LineupCardData], index: &GameDataIndex) -> (r: Vec<LineupProfile>)
        requires
            forall|i: int| 0 <= i < cards@.len() ==> card_fits(#[trigger] cards@[i], *index),
        ensures
            r@.len() == cards@.len(),
            forall|i: int| 0 <= i < cards@.len() ==> built_from(#[trigger] r@[i], cards@[i], *index),
    {
        let mut r: Vec<LineupProfile> = Vec::new();
        let mut i: usize = 0;
        while i < cards.len()
            invariant
                i <= cards@.len(),
                forall|k: int| 0 <= k < cards@.len() ==> card_fits(#[trigger] cards@[k], *index),
                r@.len() == i,
                forall|k: int| 0 <= k < i ==> built_from(#[trigger] r@[k], cards@[k], *index),
            decreases cards@.len() - i,
        {
            r.push(Self::build(&cards[i], index));
            i = i + 1;
        }
        r
    }
}

} // verus!
