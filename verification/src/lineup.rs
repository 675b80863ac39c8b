//! The lineup library: lineup configurations read from their JSON texts,
//! looked up by name or recommended for a frame.
use vstd::prelude::*;
use crate::error::{HexError, HexResult};
use crate::json::{items_of, member, text_of, JsonValue, JsonView};
use crate::lineup_adapter::{parse_json, parsed_json};
use crate::order::is_permutation;
use crate::ranking::{stable_order, stably_sorted, Key3};
use crate::text::{list_has, owned, str_eq, views};
use crate::types::{Equipment, Hero, LineupConfig, RecognizedFrame, RivalStrategies, TransitionRule};

verus! {

// ---------------------------------------------------------------------------
// Reading a lineup configuration from JSON
// ---------------------------------------------------------------------------

/// A transition rule with its texts as character sequences.
pub struct TransitionRuleView {
    pub stage: Seq<char>,
    pub units: Seq<Seq<char>>,
    pub traits: Seq<Seq<char>>,
}

/// A lineup configuration with its texts as character sequences.
pub struct LineupConfigView {
    pub name: Seq<char>,
    pub tier: Seq<char>,
    pub playstyle: Seq<char>,
    pub main_carry: Seq<Seq<char>>,
    pub sub_carry: Seq<Seq<char>>,
    pub main_tank: Seq<Seq<char>>,
    pub traits: Seq<Seq<char>>,
    pub carry_items: Seq<Seq<char>>,
    pub sub_carry_items: Seq<Seq<char>>,
    pub tank_items: Seq<Seq<char>>,
    pub transitions: Seq<TransitionRuleView>,
    pub hextechs_best: Seq<Seq<char>>,
    pub hextechs_ok: Seq<Seq<char>>,
    pub hextechs_bad: Seq<Seq<char>>,
    pub rival_low: Seq<char>,
    pub rival_medium: Seq<char>,
    pub rival_high: Seq<char>,
}

impl View for TransitionRule {
    type V = TransitionRuleView;

    open spec fn view(&self) -> TransitionRuleView {
        TransitionRuleView { stage: self.stage@, units: views(self.units@), traits: views(self.traits@) }
    }
}

impl View for LineupConfig {
    type V = LineupConfigView;

    open spec fn view(&self) -> LineupConfigView {
        LineupConfigView {
            name: self.name@,
            tier: self.tier@,
            playstyle: self.playstyle@,
            main_carry: views(self.main_carry@),
            sub_carry: views(self.sub_carry@),
            main_tank: views(self.main_tank@),
            traits: views(self.traits@),
            carry_items: views(self.carry_items@),
            sub_carry_items: views(self.sub_carry_items@),
            tank_items: views(self.tank_items@),
            transitions: self.transitions@.map_values(|t: TransitionRule| t@),
            hextechs_best: views(self.hextechs_best@),
            hextechs_ok: views(self.hextechs_ok@),
            hextechs_bad: views(self.hextechs_bad@),
            rival_low: self.rival_strategies.low@,
            rival_medium: self.rival_strategies.medium@,
            rival_high: self.rival_strategies.high@,
        }
    }
}

/// The texts of a list whose items are all strings; nothing otherwise.
pub open spec fn all_texts(items: Seq<JsonView>) -> Option<Seq<Seq<char>>>
    decreases items.len(),
{
    if items.len() == 0 {
        Some(seq![])
    } else {
        match (all_texts(items.drop_last()), text_of(items.last())) {
            (Some(t), Some(x)) => Some(t.push(x)),
            _ => None,
        }
    }
}

/// The string member `key` of an object.
pub open spec fn text_field(v: JsonView, key: Seq<char>) -> Option<Seq<char>> {
    match member(v, key) {
        Some(x) => text_of(x),
        None => None,
    }
}

/// The member `key` of an object, an array of strings.
pub open spec fn texts_field(v: JsonView, key: Seq<char>) -> Option<Seq<Seq<char>>> {
    match member(v, key) {
        Some(x) => match items_of(x) {
            Some(a) => all_texts(a),
            None => None,
        },
        None => None,
    }
}

/// A transition rule read from an object with `stage`, `units` and `traits`.
pub open spec fn transition_of(v: JsonView) -> Option<TransitionRuleView> {
    match (text_field(v, "stage"@), texts_field(v, "units"@), texts_field(v, "traits"@)) {
        (Some(stage), Some(units), Some(traits)) => Some(TransitionRuleView { stage, units, traits }),
        _ => None,
    }
}

/// The transition rules of a list whose items all read as rules.
pub open spec fn all_transitions(items: Seq<JsonView>) -> Option<Seq<TransitionRuleView>>
    decreases items.len(),
{
    if items.len() == 0 {
        Some(seq![])
    } else {
        match (all_transitions(items.drop_last()), transition_of(items.last())) {
            (Some(t), Some(x)) => Some(t.push(x)),
            _ => None,
        }
    }
}

/// The member `key` of an object, an array of transition rules.
pub open spec fn transitions_field(v: JsonView, key: Seq<char>) -> Option<Seq<TransitionRuleView>> {
    match member(v, key) {
        Some(x) => match items_of(x) {
            Some(a) => all_transitions(a),
            None => None,
        },
        None => None,
    }
}

/// The lineup configuration an object describes: every field present with
/// its type (texts, lists of texts, transition rules, and the three rival
/// strategies); other members are ignored.
pub open spec fn config_of(v: JsonView) -> Option<LineupConfigView> {
    let rivals = member(v, "rival_strategies"@);
    if text_field(v, "name"@) is Some && text_field(v, "tier"@) is Some && text_field(v, "playstyle"@) is Some
        && texts_field(v, "main_carry"@) is Some && texts_field(v, "sub_carry"@) is Some && texts_field(
        v,
        "main_tank"@,
    ) is Some && texts_field(v, "traits"@) is Some && texts_field(v, "carry_items"@) is Some && texts_field(
        v,
        "sub_carry_items"@,
    ) is Some && texts_field(v, "tank_items"@) is Some && transitions_field(v, "transitions"@) is Some
        && texts_field(v, "hextechs_best"@) is Some && texts_field(v, "hextechs_ok"@) is Some && texts_field(
        v,
        "hextechs_bad"@,
    ) is Some && rivals is Some && text_field(rivals->0, "low"@) is Some && text_field(rivals->0, "medium"@) is Some
        && text_field(rivals->0, "high"@) is Some {
        Some(
            LineupConfigView {
                name: text_field(v, "name"@)->0,
                tier: text_field(v, "tier"@)->0,
                playstyle: text_field(v, "playstyle"@)->0,
                main_carry: texts_field(v, "main_carry"@)->0,
                sub_carry: texts_field(v, "sub_carry"@)->0,
                main_tank: texts_field(v, "main_tank"@)->0,
                traits: texts_field(v, "traits"@)->0,
                carry_items: texts_field(v, "carry_items"@)->0,
                sub_carry_items: texts_field(v, "sub_carry_items"@)->0,
                tank_items: texts_field(v, "tank_items"@)->0,
                transitions: transitions_field(v, "transitions"@)->0,
                hextechs_best: texts_field(v, "hextechs_best"@)->0,
                hextechs_ok: texts_field(v, "hextechs_ok"@)->0,
                hextechs_bad: texts_field(v, "hextechs_bad"@)->0,
                rival_low: text_field(rivals->0, "low"@)->0,
                rival_medium: text_field(rivals->0, "medium"@)->0,
                rival_high: text_field(rivals->0, "high"@)->0,
            },
        )
    } else {
        None
    }
}

/// What is loaded can be read back: once a configuration has been added,
/// the library holds a lineup of its name, so looking that name up finds one.
pub proof fn lemma_loaded_config_found(before: Seq<LineupConfig>, after: Seq<LineupConfig>, c: LineupConfigView)
    requires
        after.len() == before.len() + 1,
        after.subrange(0, before.len() as int) == before,
        after.last()@ == c,
    ensures
        exists|i: int| 0 <= i < after.len() && (#[trigger] after[i]).name@ == c.name,
{
    assert(after[after.len() - 1].name@ == c.name);
}

/// The items named in a lineup's item lists.
pub open spec fn lineup_items(l: LineupConfig) -> Seq<Seq<char>> {
    views(l.carry_items@) + views(l.sub_carry_items@) + views(l.tank_items@)
}

/// The heroes a lineup plays as carries and tank.
pub open spec fn lineup_heroes(l: LineupConfig) -> Seq<Seq<char>> {
    views(l.main_carry@) + views(l.sub_carry@) + views(l.main_tank@)
}

/// How many of the items on hand the lineup builds.
pub open spec fn item_hits(items: Seq<Equipment>, wanted: Seq<Seq<char>>) -> int
    decreases items.len(),
{
    if items.len() == 0 {
        0
    } else {
        item_hits(items.drop_last(), wanted) + if wanted.contains(items.last().name@) { 1int } else { 0int }
    }
}

/// How many of the heroes on board the lineup plays.
pub open spec fn hero_hits(heroes: Seq<Hero>, wanted: Seq<Seq<char>>) -> int
    decreases heroes.len(),
{
    if heroes.len() == 0 {
        0
    } else {
        hero_hits(heroes.drop_last(), wanted) + if wanted.contains(heroes.last().name@) { 1int } else { 0int }
    }
}

/// Rank of a tier: S 3, A 2, B 1, anything else 0.
pub open spec fn tier_rank(tier: Seq<char>) -> int {
    if tier == "S"@ {
        3
    } else if tier == "A"@ {
        2
    } else if tier == "B"@ {
        1
    } else {
        0
    }
}

/// Sort key of a lineup for a frame: more item hits, more hero hits and a
/// higher tier come first.
pub open spec fn fit_key(l: LineupConfig, frame: RecognizedFrame) -> Key3 {
    (
        -item_hits(frame.own_equipment@, lineup_items(l)) as i64,
        -hero_hits(frame.own_heroes@, lineup_heroes(l)) as i64,
        -tier_rank(l.tier@) as i64,
    )
}

fn in_lists(a: &Vec<String>, b: &Vec<String>, c: &Vec<String>, x: &str) -> (r: bool)
    ensures
        r == (views(a@) + views(b@) + views(c@)).contains(x@),
{
    let r = list_has(a, x) || list_has(b, x) || list_has(c, x);
    proof {
        let s = views(a@) + views(b@) + views(c@);
        if s.contains(x@) {
            let k = choose|k: int| 0 <= k < s.len() && s[k] == x@;
            if k < a@.len() {
                assert(views(a@)[k] == x@);
            } else if k < a@.len() + b@.len() {
                assert(views(b@)[k - a@.len()] == x@);
            } else {
                assert(views(c@)[k - a@.len() - b@.len()] == x@);
            }
        }
        if views(a@).contains(x@) {
            let k = choose|k: int| 0 <= k < a@.len() && views(a@)[k] == x@;
            assert(s[k] == x@);
        }
        if views(b@).contains(x@) {
            let k = choose|k: int| 0 <= k < b@.len() && views(b@)[k] == x@;
            assert(s[a@.len() + k] == x@);
        }
        if views(c@).contains(x@) {
            let k = choose|k: int| 0 <= k < c@.len() && views(c@)[k] == x@;
            assert(s[a@.len() + b@.len() + k] == x@);
        }
    }
    r
}

fn lineup_key(l: &LineupConfig, frame: &RecognizedFrame) -> (k: Key3)
    requires
        frame.own_equipment@.len() <= i64::MAX,
        frame.own_heroes@.len() <= i64::MAX,
    ensures
        k == fit_key(*l, *frame),
{
    let mut items: i64 = 0;
    let mut i: usize = 0;
    while i < frame.own_equipment.len()
        invariant
            i <= frame.own_equipment@.len(),
            frame.own_equipment@.len() <= i64::MAX,
            items == item_hits(frame.own_equipment@.subrange(0, i as int), lineup_items(*l)),
            0 <= items <= i,
        decreases frame.own_equipment@.len() - i,
    {
        assert(frame.own_equipment@.subrange(0, i + 1).drop_last() =~= frame.own_equipment@.subrange(0, i as int));
        if in_lists(&l.carry_items, &l.sub_carry_items, &l.tank_items, frame.own_equipment[i].name.as_str()) {
            items = items + 1;
        }
        i = i + 1;
    }
    assert(frame.own_equipment@.subrange(0, i as int) =~= frame.own_equipment@);
    let mut heroes: i64 = 0;
    let mut j: usize = 0;
    while j < frame.own_heroes.len()
        invariant
            j <= frame.own_heroes@.len(),
            frame.own_heroes@.len() <= i64::MAX,
            heroes == hero_hits(frame.own_heroes@.subrange(0, j as int), lineup_heroes(*l)),
            0 <= heroes <= j,
        decreases frame.own_heroes@.len() - j,
    {
        assert(frame.own_heroes@.subrange(0, j + 1).drop_last() =~= frame.own_heroes@.subrange(0, j as int));
        if in_lists(&l.main_carry, &l.sub_carry, &l.main_tank, frame.own_heroes[j].name.as_str()) {
            heroes = heroes + 1;
        }
        j = j + 1;
    }
    assert(frame.own_heroes@.subrange(0, j as int) =~= frame.own_heroes@);
    let tier: i64 = if str_eq(l.tier.as_str(), "S") {
        3
    } else if str_eq(l.tier.as_str(), "A") {
        2
    } else if str_eq(l.tier.as_str(), "B") {
        1
    } else {
        0
    };
    (-items, -heroes, -tier)
}

/// The position of the first text that is not a lineup configuration.
pub open spec fn first_refused(files: Seq<String>) -> Option<int> {
    if exists|k: int| 0 <= k < files.len() && config_of_text(#[trigger] files[k]@) is None {
        Some(
            choose|k: int|
                0 <= k < files.len() && config_of_text(#[trigger] files[k]@) is None && forall|j: int|
                    0 <= j < k ==> config_of_text(#[trigger] files[j]@) is Some,
        )
    } else {
        None
    }
}

proof fn lemma_first_refused_at(files: Seq<String>, k: int)
    requires
        0 <= k < files.len(),
        config_of_text(files[k]@) is None,
        forall|j: int| 0 <= j < k ==> config_of_text(#[trigger] files[j]@) is Some,
    ensures
        first_refused(files) == Some(k),
{
    let p = |k: int|
        0 <= k < files.len() && config_of_text(files[k]@) is None && forall|j: int|
            0 <= j < k ==> config_of_text(#[trigger] files[j]@) is Some;
    assert(p(k));
    let c = choose|k: int|
        0 <= k < files.len() && config_of_text(#[trigger] files[k]@) is None && forall|j: int|
            0 <= j < k ==> config_of_text(#[trigger] files[j]@) is Some;
    assert(p(c));
    if c < k {
        assert(config_of_text(files[c]@) is Some);
    }
    if k < c {
        assert(config_of_text(files[k]@) is Some);
    }
}

proof fn lemma_first_refused_none(files: Seq<String>)
    requires
        forall|j: int| 0 <= j < files.len() ==> config_of_text(#[trigger] files[j]@) is Some,
    ensures
        first_refused(files) is None,
{
}

/// The lineup configuration a JSON text describes; nothing where the text is
/// not JSON or does not describe one.
pub open spec fn config_of_text(text: Seq<char>) -> Option<LineupConfigView> {
    match parsed_json(text) {
        Some(v) => config_of(v),
        None => None,
    }
}

fn text_member(v: &JsonValue, key: &str) -> (r: Option<String>)
    ensures
        match r {
            Some(t) => text_field(v@, key@) == Some(t@),
            None => text_field(v@, key@) is None,
        },
{
    match v.get(key) {
        Some(x) => match x.as_str() {
            Some(t) => Some(owned(t)),
            None => None,
        },
        None => None,
    }
}

fn read_texts(items: &Vec<JsonValue>) -> (r: Option<Vec<String>>)
    ensures
        match r {
            Some(t) => all_texts(items@.map_values(|x: JsonValue| x@)) == Some(views(t@)),
            None => all_texts(items@.map_values(|x: JsonValue| x@)) is None,
        },
{
    let ghost iv = items@.map_values(|x: JsonValue| x@);
    let mut out: Vec<String> = Vec::new();
    let mut i: usize = 0;
    while i < items.len()
        invariant
            iv == items@.map_values(|x: JsonValue| x@),
            i <= iv.len(),
            all_texts(iv.subrange(0, i as int)) == Some(views(out@)),
        decreases iv.len() - i,
    {
        assert(iv.subrange(0, i + 1).drop_last() =~= iv.subrange(0, i as int));
        assert(iv.subrange(0, i + 1).last() == items@[i as int]@);
        match items[i].as_str() {
            Some(t) => {
                let ghost before = views(out@);
                out.push(owned(t));
                assert(views(out@) =~= before.push(t@));
            },
            None => {
                proof {
                    lemma_all_texts_prefix(iv, i as int + 1);
                }
                return None;
            },
        }
        i = i + 1;
    }
    assert(iv.subrange(0, i as int) =~= iv);
    Some(out)
}

/// A list with an item that is not a string reads as nothing.
proof fn lemma_all_texts_prefix(items: Seq<JsonView>, k: int)
    requires
        0 <= k <= items.len(),
        all_texts(items.subrange(0, k)) is None,
    ensures
        all_texts(items) is None,
    decreases items.len() - k,
{
    if k < items.len() {
        assert(items.subrange(0, k + 1).drop_last() =~= items.subrange(0, k));
        lemma_all_texts_prefix(items, k + 1);
    } else {
        assert(items.subrange(0, k) =~= items);
    }
}

fn texts_member(v: &JsonValue, key: &str) -> (r: Option<Vec<String>>)
    ensures
        match r {
            Some(t) => texts_field(v@, key@) == Some(views(t@)),
            None => texts_field(v@, key@) is None,
        },
{
    match v.get(key) {
        Some(x) => match x.as_array() {
            Some(a) => read_texts(a),
            None => None,
        },
        None => None,
    }
}

fn read_transition(v: &JsonValue) -> (r: Option<TransitionRule>)
    ensures
        match r {
            Some(t) => transition_of(v@) == Some(t@),
            None => transition_of(v@) is None,
        },
{
    let stage = text_member(v, "stage");
    let units = texts_member(v, "units");
    let traits = texts_member(v, "traits");
    match (stage, units, traits) {
        (Some(stage), Some(units), Some(traits)) => Some(TransitionRule { stage, units, traits }),
        _ => None,
    }
}

/// A list with an item that is not a transition rule reads as nothing.
proof fn lemma_all_transitions_prefix(items: Seq<JsonView>, k: int)
    requires
        0 <= k <= items.len(),
        all_transitions(items.subrange(0, k)) is None,
    ensures
        all_transitions(items) is None,
    decreases items.len() - k,
{
    if k < items.len() {
        assert(items.subrange(0, k + 1).drop_last() =~= items.subrange(0, k));
        lemma_all_transitions_prefix(items, k + 1);
    } else {
        assert(items.subrange(0, k) =~= items);
    }
}

fn transitions_member(v: &JsonValue, key: &str) -> (r: Option<Vec<TransitionRule>>)
    ensures
        match r {
            Some(t) => transitions_field(v@, key@) == Some(t@.map_values(|x: TransitionRule| x@)),
            None => transitions_field(v@, key@) is None,
        },
{
    let items = match v.get(key) {
        Some(x) => match x.as_array() {
            Some(a) => a,
            None => {
                return None;
            },
        },
        None => {
            return None;
        },
    };
    let ghost iv = items@.map_values(|x: JsonValue| x@);
    let mut out: Vec<TransitionRule> = Vec::new();
    let mut i: usize = 0;
    while i < items.len()
        invariant
            iv == items@.map_values(|x: JsonValue| x@),
            transitions_field(v@, key@) == all_transitions(iv),
            i <= iv.len(),
            all_transitions(iv.subrange(0, i as int)) == Some(out@.map_values(|x: TransitionRule| x@)),
        decreases iv.len() - i,
    {
        assert(iv.subrange(0, i + 1).drop_last() =~= iv.subrange(0, i as int));
        assert(iv.subrange(0, i + 1).last() == items@[i as int]@);
        match read_transition(&items[i]) {
            Some(t) => {
                let ghost before = out@.map_values(|x: TransitionRule| x@);
                let ghost tv = t@;
                out.push(t);
                assert(out@.map_values(|x: TransitionRule| x@) =~= before.push(tv));
            },
            None => {
                proof {
                    lemma_all_transitions_prefix(iv, i as int + 1);
                }
                return None;
            },
        }
        i = i + 1;
    }
    assert(iv.subrange(0, i as int) =~= iv);
    Some(out)
}

/// The lineup configuration a JSON text describes.
fn config_from_text(json: &str) -> (r: Option<LineupConfig>)
    ensures
        match r {
            Some(c) => config_of_text(json@) == Some(c@),
            None => config_of_text(json@) is None,
        },
{
    match parse_json(json) {
        Some(v) => read_config(&v),
        None => None,
    }
}

/// The lineup configuration a JSON value describes.
fn read_config(v: &JsonValue) -> (r: Option<LineupConfig>)
    ensures
        match r {
            Some(c) => config_of(v@) == Some(c@),
            None => config_of(v@) is None,
        },
{
    let name = text_member(v, "name");
    let tier = text_member(v, "tier");
    let playstyle = text_member(v, "playstyle");
    let main_carry = texts_member(v, "main_carry");
    let sub_carry = texts_member(v, "sub_carry");
    let main_tank = texts_member(v, "main_tank");
    let traits = texts_member(v, "traits");
    let carry_items = texts_member(v, "carry_items");
    let sub_carry_items = texts_member(v, "sub_carry_items");
    let tank_items = texts_member(v, "tank_items");
    let transitions = transitions_member(v, "transitions");
    let hextechs_best = texts_member(v, "hextechs_best");
    let hextechs_ok = texts_member(v, "hextechs_ok");
    let hextechs_bad = texts_member(v, "hextechs_bad");
    let (low, medium, high) = match v.get("rival_strategies") {
        Some(r) => (text_member(r, "low"), text_member(r, "medium"), text_member(r, "high")),
        None => (None, None, None),
    };
    match (name, tier, playstyle, main_carry, sub_carry, main_tank, traits) {
        (Some(name), Some(tier), Some(playstyle), Some(main_carry), Some(sub_carry), Some(main_tank), Some(traits)) => {
            match (carry_items, sub_carry_items, tank_items, transitions, hextechs_best, hextechs_ok, hextechs_bad) {
                (
                    Some(carry_items),
                    Some(sub_carry_items),
                    Some(tank_items),
                    Some(transitions),
                    Some(hextechs_best),
                    Some(hextechs_ok),
                    Some(hextechs_bad),
                ) => match (low, medium, high) {
                    (Some(low), Some(medium), Some(high)) => {
                        let c = LineupConfig {
                            name,
                            tier,
                            playstyle,
                            main_carry,
                            sub_carry,
                            main_tank,
                            traits,
                            carry_items,
                            sub_carry_items,
                            tank_items,
                            transitions,
                            hextechs_best,
                            hextechs_ok,
                            hextechs_bad,
                            rival_strategies: RivalStrategies { low, medium, high },
                        };
                        Some(c)
                    },
                    _ => None,
                },
                _ => None,
            }
        },
        _ => None,
    }
}

/// `r` lists the held lineups at positions `pos`, no position twice.
pub open spec fn picks_at(lineups: Seq<LineupConfig>, r: Seq<&LineupConfig>, pos: Seq<usize>) -> bool {
    &&& pos.len() == r.len()
    &&& forall|i: int, j: int| 0 <= i < j < pos.len() ==> pos[i] != pos[j]
    &&& forall|i: int| 0 <= i < pos.len() ==> pos[i] < lineups.len() && *r[i] == lineups[#[trigger] pos[i] as int]
}

/// Loading a lineup that parses adds exactly one lineup, after those held
/// before, so a search by its name finds a lineup of that name; when no lineup
/// held before had that name, the one found is the one loaded.
pub proof fn lemma_loaded_lineup_found(before: Seq<LineupConfig>, after: Seq<LineupConfig>, c: LineupConfigView)
    requires
        after.len() == before.len() + 1,
        after.subrange(0, before.len() as int) == before,
        after.last()@ == c,
    ensures
        exists|i: int|
            0 <= i < after.len() && (#[trigger] after[i]).name@ == c.name && forall|j: int|
                0 <= j < i ==> (#[trigger] after[j]).name@ != c.name,
        (forall|j: int| 0 <= j < before.len() ==> (#[trigger] before[j]).name@ != c.name) ==> forall|i: int|
            0 <= i < after.len() && (#[trigger] after[i]).name@ == c.name ==> i == before.len() && after[i]@ == c,
{
    let n = before.len() as int;
    assert(after[n].name@ == c.name);
    assert forall|j: int| 0 <= j < n implies after[j] == before[j] by {
        assert(after.subrange(0, n)[j] == after[j]);
    }
    lemma_first_named(after, c.name, n);
}

proof fn lemma_first_named(s: Seq<LineupConfig>, name: Seq<char>, k: int)
    requires
        0 <= k < s.len(),
        s[k].name@ == name,
    ensures
        exists|i: int|
            0 <= i < s.len() && (#[trigger] s[i]).name@ == name && forall|j: int|
                0 <= j < i ==> (#[trigger] s[j]).name@ != name,
    decreases k,
{
    if exists|j: int| 0 <= j < k && (#[trigger] s[j]).name@ == name {
        let j = choose|j: int| 0 <= j < k && (#[trigger] s[j]).name@ == name;
        lemma_first_named(s, name, j);
    }
}

/// The loaded lineups.
pub struct LineupDB {
    pub lineups: Vec<LineupConfig>,
}

impl LineupDB {
    /// An empty library.
    pub fn new() -> (db: Self)
        ensures
            db.lineups@.len() == 0,
    {
        LineupDB { lineups: Vec::new() }
    }

    /// Loads the lineup files of a directory, given as their JSON texts in
    /// the directory's order, and returns the number of lineups held. The
    /// first text that is not a configuration stops the loading with its
    /// error; the ones before it stay loaded.
    pub fn load_from_dir(&mut self, files: &[String]) -> (r: HexResult<usize>)
        ensures
            match first_refused(files@) {
                None => {
                    &&& r matches Ok(n) && n == final(self).lineups@.len()
                    &&& final(self).lineups@.len() == old(self).lineups@.len() + files@.len()
                    &&& final(self).lineups@.subrange(0, old(self).lineups@.len() as int) == old(self).lineups@
                    &&& forall|i: int|
                        0 <= i < files@.len() ==> Some(
                            #[trigger] final(self).lineups@[old(self).lineups@.len() + i]@,
                        ) == config_of_text(files@[i]@)
                },
                Some(k) => {
                    &&& r matches Err(HexError::Config(m)) && m@ == "阵容配置无法解析"@
                    &&& final(self).lineups@.len() == old(self).lineups@.len() + k
                    &&& final(self).lineups@.subrange(0, old(self).lineups@.len() as int) == old(self).lineups@
                    &&& forall|i: int|
                        0 <= i < k ==> Some(#[trigger] final(self).lineups@[old(self).lineups@.len() + i]@)
                            == config_of_text(files@[i]@)
                },
            },
    {
        let mut loaded: Vec<LineupConfig> = Vec::new();
        let mut refused = false;
        let mut i: usize = 0;
        while i < files.len() && !refused
            invariant
                i <= files@.len(),
                loaded@.len() == i,
                forall|j: int| 0 <= j < i ==> config_of_text(#[trigger] files@[j]@) is Some,
                forall|j: int| 0 <= j < i ==> Some(#[trigger] loaded@[j]@) == config_of_text(files@[j]@),
                refused ==> i < files@.len() && config_of_text(files@[i as int]@) is None,
            decreases files@.len() - i, if refused { 0int } else { 1int },
        {
            match config_from_text(files[i].as_str()) {
                Some(c) => {
                    loaded.push(c);
                    i = i + 1;
                },
                None => {
                    refused = true;
                },
            }
        }
        proof {
            if refused {
                lemma_first_refused_at(files@, i as int);
            } else {
                lemma_first_refused_none(files@);
            }
        }
        let ghost before = self.lineups@;
        let ghost lv = loaded@;
        self.lineups.append(&mut loaded);
        assert(self.lineups@.subrange(0, before.len() as int) =~= before);
        assert forall|j: int| 0 <= j < i implies Some(#[trigger] self.lineups@[before.len() + j]@) == config_of_text(
            files@[j]@,
        ) by {
            assert(self.lineups@[before.len() + j] == lv[j]);
        }
        if refused {
            Err(HexError::Config(owned("阵容配置无法解析")))
        } else {
            Ok(self.lineups.len())
        }
    }

    /// Loads one lineup configuration from its JSON text and adds it to the
    /// library; a text that is not JSON, or lacks a field or gives one the
    /// wrong type, is refused as a configuration error and changes nothing.
    pub fn load_config(&mut self, json: &str) -> (r: HexResult<()>)
        ensures
            match config_of_text(json@) {
                Some(c) => {
                    &&& r is Ok
                    &&& final(self).lineups@.len() == old(self).lineups@.len() + 1
                    &&& final(self).lineups@.subrange(0, old(self).lineups@.len() as int) == old(self).lineups@
                    &&& final(self).lineups@.last()@ == c
                },
                None => {
                    &&& r matches Err(HexError::Config(m)) && m@ == "阵容配置无法解析"@
                    &&& final(self).lineups@ == old(self).lineups@
                },
            },
    {
        match config_from_text(json) {
            Some(c) => {
                self.lineups.push(c);
                Ok(())
            },
            None => Err(HexError::Config(owned("阵容配置无法解析"))),
        }
    }

    /// The `top_n` lineups that fit the frame best: by the items on hand that
    /// the lineup builds, then by the heroes on board that it plays, then by
    /// its tier (S, A, B), each higher first; equal lineups keep their order.
    /// As many lineups come back as `top_n` asks, or all when fewer are held,
    /// none of them twice.
    pub fn recommend(&self, frame: &RecognizedFrame, top_n: usize) -> (r: Vec<&LineupConfig>)
        requires
            frame.own_equipment@.len() <= i64::MAX,
            frame.own_heroes@.len() <= i64::MAX,
        ensures
            exists|idx: Seq<usize>|
                is_permutation(idx, self.lineups@.len()) && stably_sorted(
                    self.lineups@.map_values(|l: LineupConfig| fit_key(l, *frame)),
                    idx,
                ) && r@.len() == (if top_n < self.lineups@.len() {
                    top_n as int
                } else {
                    self.lineups@.len() as int
                }) && forall|i: int| 0 <= i < r@.len() ==> *r@[i] == self.lineups@[idx[i] as int],
            r@.len() == if top_n < self.lineups@.len() {
                top_n as int
            } else {
                self.lineups@.len() as int
            },
            exists|pos: Seq<usize>| #[trigger] picks_at(self.lineups@, r@, pos),
    {
        let ghost kv = self.lineups@.map_values(|l: LineupConfig| fit_key(l, *frame));
        let mut keys: Vec<Key3> = Vec::new();
        let mut i: usize = 0;
        while i < self.lineups.len()
            invariant
                i <= self.lineups@.len(),
                kv == self.lineups@.map_values(|l: LineupConfig| fit_key(l, *frame)),
                frame.own_equipment@.len() <= i64::MAX,
                frame.own_heroes@.len() <= i64::MAX,
                keys@ == kv.subrange(0, i as int),
            decreases self.lineups@.len() - i,
        {
            let k = lineup_key(&self.lineups[i], frame);
            keys.push(k);
            assert(keys@ =~= kv.subrange(0, i + 1));
            i = i + 1;
        }
        assert(kv.subrange(0, i as int) =~= kv);
        let idx = stable_order(&keys);
        let mut r: Vec<&LineupConfig> = Vec::new();
        let mut t: usize = 0;
        while t < idx.len() && t < top_n
            invariant
                is_permutation(idx@, self.lineups@.len()),
                t <= idx@.len(),
                t <= top_n,
                r@.len() == t,
                forall|q: int| 0 <= q < t ==> *r@[q] == self.lineups@[idx@[q] as int],
            decreases idx@.len() - t,
        {
            r.push(&self.lineups[idx[t]]);
            t = t + 1;
        }
        assert(picks_at(self.lineups@, r@, idx@.subrange(0, t as int)));
        r
    }

    /// The first lineup with the given name.
    pub fn find_by_name(&self, name: &str) -> (r: Option<&LineupConfig>)
        ensures
            match r {
                Some(l) => exists|i: int|
                    0 <= i < self.lineups@.len() && *l == self.lineups@[i] && self.lineups@[i].name@ == name@
                        && forall|j: int| 0 <= j < i ==> (#[trigger] self.lineups@[j]).name@ != name@,
                None => forall|j: int| 0 <= j < self.lineups@.len() ==> (#[trigger] self.lineups@[j]).name@ != name@,
            },
    {
        let mut i: usize = 0;
        while i < self.lineups.len()
            invariant
                i <= self.lineups@.len(),
                forall|j: int| 0 <= j < i ==> (#[trigger] self.lineups@[j]).name@ != name@,
            decreases self.lineups@.len() - i,
        {
            if str_eq(self.lineups[i].name.as_str(), name) {
                return Some(&self.lineups[i]);
            }
            i = i + 1;
        }
        None
    }

    /// Number of lineups held.
    pub fn count(&self) -> (n: usize)
        ensures
            n == self.lineups@.len(),
    {
        self.lineups.len()
    }
}

impl Default for LineupDB {
    fn default() -> (db: Self)
        ensures
            db.lineups@.len() == 0,
    {
        LineupDB::new()
    }
}

} // verus!
