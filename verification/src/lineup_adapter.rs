//! Lineup cards read from the raw lineup list: the lineup detail is a JSON
//! document held as text, whose fields are read with fixed fallbacks.
use vstd::prelude::*;
use crate::data_types::{
    ChosenBackupData, GodRewardData, HeroReplacementData, LineupCardData, LineupDetailData, LineupPieceData,
    TraitContactData, UnlockTaskData,
};
use crate::game_data_index::{trim_text, trimmed};
use crate::json::{bool_of, int_of, items_of, member, object_members, text_of, JsonValue, JsonView};
use crate::keyed::{first_key, lemma_lookup_absent, lemma_lookup_first, lookup};
use crate::order::is_permutation;
use crate::ranking::{named_order, named_sorted, named_views, NamedKey};
use crate::augment_reroll_scorer::opt_text;
use crate::text::{cat, chars_of, int_text, int_to_text, owned, parse_i32, parse_i32_spec, push_str, split_on, split_text, str_eq, string_from_chars, views};

verus! {

/// A raw entry of the lineup list.
#[derive(Debug)]
pub struct LineupRawItem {
    pub id: String,
    pub pid: String,
    pub quality: String,
    pub author: String,
    pub channel: String,
    pub lineupauthor_data: JsonValue,
    /// The lineup detail, a JSON document as text.
    pub detail: String,
    /// Every other field of the entry.
    pub extra: Vec<(String, JsonValue)>,
}

/// Reads lineup cards.
pub struct LineupAdapter;

// ---------------------------------------------------------------------------
// Reading JSON text
// ---------------------------------------------------------------------------

#[verifier::external_type_specification]
#[verifier::external_body]
pub struct ExSerdeValue(serde_json::Value);

/// What `serde_json::from_str::<Value>` reads from a text, taken as a JSON
/// view; `None` where the text is not JSON.
pub uninterp spec fn parsed_json(text: Seq<char>) -> Option<JsonView>;

/// `serde_json::from_str::<serde_json::Value>`: the document the text holds,
/// or `None` where it is not JSON. The contract claims that the result is the
/// value named `parsed_json` of the text.
#[verifier::external_body]
pub(crate) fn parse_json(text: &str) -> (r: Option<JsonValue>)
    ensures
        match r {
            Some(v) => parsed_json(text@) == Some(v@),
            None => parsed_json(text@) is None,
        },
{
    serde_json::from_str::<serde_json::Value>(text).ok().map(|v| from_serde(&v))
}

/// A `serde_json::Value` as a `JsonValue`, variant by variant: an integer
/// that `as_i64` reads stays an integer, any other number keeps its text.
#[verifier::external_body]
fn from_serde(v: &serde_json::Value) -> JsonValue {
    match v {
        serde_json::Value::Null => JsonValue::Null,
        serde_json::Value::Bool(b) => JsonValue::Bool(*b),
        serde_json::Value::Number(n) => match n.as_i64() {
            Some(i) => JsonValue::Int(i),
            None => JsonValue::Number(n.to_string()),
        },
        serde_json::Value::String(s) => JsonValue::Str(s.clone()),
        serde_json::Value::Array(a) => JsonValue::Array(a.iter().map(from_serde).collect()),
        serde_json::Value::Object(m) => JsonValue::Object(m.iter().map(|(k, x)| (k.clone(), from_serde(x))).collect()),
    }
}

/// The detail document: the parsed text where it is an object with members,
/// an empty object otherwise.
pub open spec fn detail_payload(text: Seq<char>) -> JsonView {
    match parsed_json(text) {
        Some(v) => match object_members(v) {
            Some(m) => if m.len() > 0 { v } else { JsonView::Object(Seq::empty()) },
            None => JsonView::Object(Seq::empty()),
        },
        None => JsonView::Object(Seq::empty()),
    }
}

fn parse_detail_payload(detail: &str) -> (r: JsonValue)
    ensures
        detail@.len() > 0 ==> r@ == detail_payload(detail@),
        detail@.len() == 0 ==> r@ == JsonView::Object(Seq::empty()),
{
    if detail.is_empty() {
        let r = JsonValue::Object(Vec::new());
        assert(r@->Object_0 =~= Seq::<(Seq<char>, JsonView)>::empty());
        return r;
    }
    match parse_json(detail) {
        Some(v) => {
            let nonempty = match &v {
                JsonValue::Object(m) => m.len() > 0,
                _ => false,
            };
            if nonempty {
                v
            } else {
                let r = JsonValue::Object(Vec::new());
                assert(r@->Object_0 =~= Seq::<(Seq<char>, JsonView)>::empty());
                r
            }
        },
        None => {
            let r = JsonValue::Object(Vec::new());
            assert(r@->Object_0 =~= Seq::<(Seq<char>, JsonView)>::empty());
            r
        },
    }
}

// ---------------------------------------------------------------------------
// Values
// ---------------------------------------------------------------------------

/// The member `key` of an optional value.
pub open spec fn field(v: Option<JsonView>, key: Seq<char>) -> Option<JsonView> {
    match v {
        Some(x) => member(x, key),
        None => None,
    }
}

/// The text of an optional string value.
pub open spec fn text_in(v: Option<JsonView>) -> Option<Seq<char>> {
    match v {
        Some(x) => text_of(x),
        None => None,
    }
}

pub open spec fn text_or(t: Option<Seq<char>>, d: Seq<char>) -> Seq<char> {
    match t {
        Some(s) => s,
        None => d,
    }
}

/// A string, or the text of a number.
pub open spec fn flexible_id(v: JsonView) -> Option<Seq<char>> {
    match v {
        JsonView::Str(s) => Some(s),
        JsonView::Int(i) => Some(int_text(i as int)),
        JsonView::Number(t) => Some(t),
        _ => None,
    }
}

pub open spec fn flexible_id_in(v: Option<JsonView>) -> Option<Seq<char>> {
    match v {
        Some(x) => flexible_id(x),
        None => None,
    }
}

/// An integer, or a string that reads as one once trimmed.
pub open spec fn flexible_int(v: JsonView) -> Option<i32> {
    match v {
        JsonView::Int(i) => Some(i as i32),
        JsonView::Str(s) => parse_i32_spec(trimmed(s)),
        _ => None,
    }
}

pub open spec fn int_or_zero(v: Option<JsonView>) -> i32 {
    match v {
        Some(x) => match flexible_int(x) {
            Some(i) => i,
            None => 0,
        },
        None => 0,
    }
}

/// The text of a string or number, empty for anything else.
pub open spec fn value_text(v: Option<JsonView>) -> Seq<char> {
    match v {
        Some(JsonView::Str(s)) => s,
        Some(JsonView::Int(i)) => int_text(i as int),
        Some(JsonView::Number(t)) => t,
        _ => Seq::empty(),
    }
}

fn get_field<'a>(v: Option<&'a JsonValue>, key: &str) -> (r: Option<&'a JsonValue>)
    ensures
        match r {
            Some(x) => field(opt_view(v), key@) == Some(x@),
            None => field(opt_view(v), key@) is None,
        },
{
    match v {
        Some(x) => x.get(key),
        None => None,
    }
}

pub open spec fn opt_view(v: Option<&JsonValue>) -> Option<JsonView> {
    match v {
        Some(x) => Some(x@),
        None => None,
    }
}

fn text_of_value<'a>(v: Option<&'a JsonValue>) -> (r: Option<&'a str>)
    ensures
        match r {
            Some(s) => text_in(opt_view(v)) == Some(s@),
            None => text_in(opt_view(v)) is None,
        },
{
    match v {
        Some(x) => x.as_str(),
        None => None,
    }
}

fn text_or_default(t: Option<&str>, d: &str) -> (r: String)
    ensures
        r@ == text_or(
            match t {
                Some(s) => Some(s@),
                None => None,
            },
            d@,
        ),
{
    match t {
        Some(s) => owned(s),
        None => owned(d),
    }
}

fn flexible_id_of(v: &JsonValue) -> (r: Option<String>)
    ensures
        match r {
            Some(s) => flexible_id(v@) == Some(s@),
            None => flexible_id(v@) is None,
        },
{
    match v {
        JsonValue::Str(s) => Some(s.clone()),
        JsonValue::Int(i) => Some(int_to_text(*i)),
        JsonValue::Number(t) => Some(t.clone()),
        _ => None,
    }
}

fn flexible_id_or_empty(v: Option<&JsonValue>) -> (r: String)
    ensures
        r@ == text_or(flexible_id_in(opt_view(v)), Seq::empty()),
{
    proof {
        reveal_strlit("");
    }
    match v {
        Some(x) => match flexible_id_of(x) {
            Some(s) => s,
            None => owned(""),
        },
        None => owned(""),
    }
}

fn int_or_zero_of(v: Option<&JsonValue>) -> (r: i32)
    ensures
        r == int_or_zero(opt_view(v)),
{
    match v {
        Some(JsonValue::Int(i)) => *i as i32,
        Some(JsonValue::Str(s)) => match parse_i32(trim_text(s.as_str())) {
            Some(i) => i,
            None => 0,
        },
        _ => 0,
    }
}

fn value_text_of(v: Option<&JsonValue>) -> (r: String)
    ensures
        r@ == value_text(opt_view(v)),
{
    match v {
        Some(JsonValue::Str(s)) => s.clone(),
        Some(JsonValue::Int(i)) => int_to_text(*i),
        Some(JsonValue::Number(t)) => t.clone(),
        _ => {
            proof {
                reveal_strlit("");
            }
            owned("")
        },
    }
}

// ---------------------------------------------------------------------------
// Id lists
// ---------------------------------------------------------------------------

/// The ids of a comma-separated list: each piece trimmed, empty pieces and
/// `0` left out.
pub open spec fn comma_ids(s: Seq<char>) -> Seq<Seq<char>> {
    kept_pieces(split_on(s, ','))
}

pub open spec fn kept_pieces(pieces: Seq<Seq<char>>) -> Seq<Seq<char>>
    decreases pieces.len(),
{
    if pieces.len() == 0 {
        Seq::empty()
    } else {
        let t = trimmed(pieces.last());
        if t.len() > 0 && t != "0"@ {
            kept_pieces(pieces.drop_last()).push(t)
        } else {
            kept_pieces(pieces.drop_last())
        }
    }
}

fn split_comma_ids(s: Option<&str>) -> (r: Vec<String>)
    ensures
        views(r@) == comma_ids(
            match s {
                Some(t) => t@,
                None => Seq::empty(),
            },
        ),
{
    proof {
        reveal_strlit("");
    }
    let text: &str = match s {
        Some(t) => t,
        None => "",
    };
    let pieces = split_text(text, ',');
    let ghost pv = views(pieces@);
    let mut r: Vec<String> = Vec::new();
    let mut i: usize = 0;
    while i < pieces.len()
        invariant
            pv == views(pieces@),
            i <= pv.len(),
            views(r@) == kept_pieces(pv.subrange(0, i as int)),
        decreases pv.len() - i,
    {
        assert(pv.subrange(0, i + 1).drop_last() =~= pv.subrange(0, i as int));
        assert(pv.subrange(0, i + 1).last() == pieces@[i as int]@);
        let t = trim_text(pieces[i].as_str());
        if !t.is_empty() && !str_eq(t, "0") {
            let ghost before = views(r@);
            r.push(owned(t));
            assert(views(r@) =~= before.push(t@));
        }
        i = i + 1;
    }
    assert(pv.subrange(0, i as int) =~= pv);
    r
}

// ---------------------------------------------------------------------------
// Lists of entries
// ---------------------------------------------------------------------------

/// `out` holds, in order, an entry made from each item that `ok` accepts.
pub open spec fn filter_mapped<T>(
    items: Seq<JsonView>,
    out: Seq<T>,
    ok: spec_fn(JsonView) -> bool,
    made: spec_fn(T, JsonView) -> bool,
) -> bool
    decreases items.len(),
{
    if items.len() == 0 {
        out.len() == 0
    } else if ok(items.last()) {
        out.len() > 0 && made(out.last(), items.last()) && filter_mapped(items.drop_last(), out.drop_last(), ok, made)
    } else {
        filter_mapped(items.drop_last(), out, ok, made)
    }
}

/// The entries made of the items of an array value; none for anything else.
pub open spec fn entries_of<T>(
    v: Option<JsonView>,
    out: Seq<T>,
    ok: spec_fn(JsonView) -> bool,
    made: spec_fn(T, JsonView) -> bool,
) -> bool {
    match v {
        Some(a) => match items_of(a) {
            Some(items) => filter_mapped(items, out, ok, made),
            None => out.len() == 0,
        },
        None => out.len() == 0,
    }
}

proof fn lemma_filter_step<T>(
    items: Seq<JsonView>,
    i: int,
    out: Seq<T>,
    x: Option<T>,
    ok: spec_fn(JsonView) -> bool,
    made: spec_fn(T, JsonView) -> bool,
)
    requires
        0 <= i < items.len(),
        filter_mapped(items.subrange(0, i), out, ok, made),
        match x {
            Some(e) => ok(items[i]) && made(e, items[i]),
            None => !ok(items[i]),
        },
    ensures
        filter_mapped(
            items.subrange(0, i + 1),
            match x {
                Some(e) => out.push(e),
                None => out,
            },
            ok,
            made,
        ),
{
    assert(items.subrange(0, i + 1).drop_last() =~= items.subrange(0, i));
    assert(items.subrange(0, i + 1).last() == items[i]);
    match x {
        Some(e) => {
            assert(out.push(e).drop_last() =~= out);
        },
        None => {},
    }
}

/// The numbers of a location `row,col`, each piece trimmed; pieces that are
/// not numbers are left out.
pub open spec fn number_pieces(pieces: Seq<Seq<char>>) -> Seq<i32>
    decreases pieces.len(),
{
    if pieces.len() == 0 {
        Seq::empty()
    } else {
        match parse_i32_spec(trimmed(pieces.last())) {
            Some(n) => number_pieces(pieces.drop_last()).push(n),
            None => number_pieces(pieces.drop_last()),
        }
    }
}

pub open spec fn location_of(v: JsonView) -> Seq<i32> {
    number_pieces(split_on(text_or(text_in(member(v, "location"@)), "0,0"@), ','))
}

pub open spec fn hero_text(v: JsonView) -> Seq<char> {
    text_or(text_in(member(v, "hero_id"@)), Seq::empty())
}

/// A piece needs a hero id and a location of two numbers.
pub open spec fn piece_ok(v: JsonView) -> bool {
    hero_text(v).len() > 0 && location_of(v).len() == 2
}

/// The piece read from an entry.
pub open spec fn piece_made(p: LineupPieceData, v: JsonView) -> bool {
    let parts = location_of(v);
    &&& p.id_in_lineup == int_or_zero(member(v, "idInLineup"@))
    &&& p.chess_type@ == text_or(text_in(member(v, "chess_type"@)), "hero"@)
    &&& p.hero_id@ == hero_text(v)
    &&& views(p.equipment_ids@) == comma_ids(text_or(text_in(member(v, "equipment_id"@)), Seq::empty()))
    &&& p.is_carry_hero == match member(v, "is_carry_hero"@) {
        Some(b) => bool_of(b) == Some(true),
        None => false,
    }
    &&& p.row == parts[0]
    &&& p.col == parts[1]
    &&& p.location_key@ == int_text(parts[0] as int) + ","@ + int_text(parts[1] as int)
}

fn location_numbers(loc: &str) -> (r: Vec<i32>)
    ensures
        r@ == number_pieces(split_on(loc@, ',')),
{
    let pieces = split_text(loc, ',');
    let ghost pv = views(pieces@);
    let mut r: Vec<i32> = Vec::new();
    let mut i: usize = 0;
    while i < pieces.len()
        invariant
            pv == views(pieces@),
            i <= pv.len(),
            r@ == number_pieces(pv.subrange(0, i as int)),
        decreases pv.len() - i,
    {
        assert(pv.subrange(0, i + 1).drop_last() =~= pv.subrange(0, i as int));
        assert(pv.subrange(0, i + 1).last() == pieces@[i as int]@);
        match parse_i32(trim_text(pieces[i].as_str())) {
            Some(n) => r.push(n),
            None => {},
        }
        i = i + 1;
    }
    assert(pv.subrange(0, i as int) =~= pv);
    r
}

fn parse_piece(v: &JsonValue) -> (r: Option<LineupPieceData>)
    ensures
        match r {
            Some(p) => piece_ok(v@) && piece_made(p, v@),
            None => !piece_ok(v@),
        },
{
    proof {
        reveal_strlit("");
    }
    let hero_id = text_or_default(text_of_value(v.get("hero_id")), "");
    if hero_id.as_str().is_empty() {
        return None;
    }
    let loc = text_or_default(text_of_value(v.get("location")), "0,0");
    let parts = location_numbers(loc.as_str());
    if parts.len() != 2 {
        return None;
    }
    let mut key = int_to_text(parts[0] as i64);
    push_str(&mut key, ",");
    push_str(&mut key, int_to_text(parts[1] as i64).as_str());
    let carry = match v.get("is_carry_hero") {
        Some(b) => match b.as_bool() {
            Some(x) => x,
            None => false,
        },
        None => false,
    };
    Some(LineupPieceData {
        id_in_lineup: int_or_zero_of(v.get("idInLineup")),
        chess_type: text_or_default(text_of_value(v.get("chess_type")), "hero"),
        hero_id,
        equipment_ids: split_comma_ids(text_of_value(v.get("equipment_id"))),
        is_carry_hero: carry,
        row: parts[0],
        col: parts[1],
        location_key: key,
    })
}

fn parse_pieces(value: Option<&JsonValue>) -> (r: Vec<LineupPieceData>)
    ensures
        entries_of(opt_view(value), r@, |v: JsonView| piece_ok(v), |p: LineupPieceData, v: JsonView| piece_made(p, v)),
{
    let mut r: Vec<LineupPieceData> = Vec::new();
    let items = match value {
        Some(a) => match a.as_array() {
            Some(items) => items,
            None => return r,
        },
        None => return r,
    };
    let ghost iv = items@.map_values(|x: JsonValue| x@);
    let ghost ok = |v: JsonView| piece_ok(v);
    let ghost made = |p: LineupPieceData, v: JsonView| piece_made(p, v);
    let mut i: usize = 0;
    assert(iv.subrange(0, 0).len() == 0);
    while i < items.len()
        invariant
            iv == items@.map_values(|x: JsonValue| x@),
            ok == (|v: JsonView| piece_ok(v)),
            made == (|p: LineupPieceData, v: JsonView| piece_made(p, v)),
            i <= items@.len(),
            filter_mapped(iv.subrange(0, i as int), r@, ok, made),
        decreases items@.len() - i,
    {
        let x = parse_piece(&items[i]);
        proof {
            lemma_filter_step(iv, i as int, r@, x, ok, made);
        }
        match x {
            Some(p) => r.push(p),
            None => {},
        }
        i = i + 1;
    }
    assert(iv.subrange(0, i as int) =~= iv);
    r
}

// ---------------------------------------------------------------------------
// Traits, replacements, tasks, rewards, backups
// ---------------------------------------------------------------------------

/// A trait count needs an id or a type.
pub open spec fn contact_ok(v: JsonView) -> bool {
    text_or(flexible_id_in(member(v, "id"@)), Seq::empty()).len() > 0 || text_or(
        text_in(member(v, "type"@)),
        Seq::empty(),
    ).len() > 0
}

pub open spec fn contact_made(c: TraitContactData, v: JsonView) -> bool {
    &&& c.id@ == text_or(flexible_id_in(member(v, "id"@)), Seq::empty())
    &&& c.contact_type@ == text_or(text_in(member(v, "type"@)), Seq::empty())
    &&& c.count == int_or_zero(member(v, "num"@))
    &&& c.color == int_or_zero(member(v, "color"@))
    &&& c.level == int_or_zero(member(v, "level"@))
}

fn parse_trait_contact(v: &JsonValue) -> (r: Option<TraitContactData>)
    ensures
        match r {
            Some(c) => contact_ok(v@) && contact_made(c, v@),
            None => !contact_ok(v@),
        },
{
    proof {
        reveal_strlit("");
    }
    let id = flexible_id_or_empty(v.get("id"));
    let contact_type = text_or_default(text_of_value(v.get("type")), "");
    if id.as_str().is_empty() && contact_type.as_str().is_empty() {
        return None;
    }
    let c = TraitContactData {
        id,
        contact_type,
        count: int_or_zero_of(v.get("num")),
        color: int_or_zero_of(v.get("color")),
        level: int_or_zero_of(v.get("level")),
    };
    assert(c.id@ == text_or(flexible_id_in(member(v@, "id"@)), Seq::empty()));
    assert(c.contact_type@ == text_or(text_in(member(v@, "type"@)), Seq::empty()));
    assert(contact_ok(v@));
    Some(c)
}

fn parse_trait_contacts(value: Option<&JsonValue>) -> (r: Vec<TraitContactData>)
    ensures
        entries_of(opt_view(value), r@, |v: JsonView| contact_ok(v), |c: TraitContactData, v: JsonView| contact_made(c, v)),
{
    let mut r: Vec<TraitContactData> = Vec::new();
    let items = match value {
        Some(a) => match a.as_array() {
            Some(items) => items,
            None => return r,
        },
        None => return r,
    };
    let ghost iv = items@.map_values(|x: JsonValue| x@);
    let ghost ok = |v: JsonView| contact_ok(v);
    let ghost made = |c: TraitContactData, v: JsonView| contact_made(c, v);
    let mut i: usize = 0;
    while i < items.len()
        invariant
            iv == items@.map_values(|x: JsonValue| x@),
            ok == (|v: JsonView| contact_ok(v)),
            made == (|c: TraitContactData, v: JsonView| contact_made(c, v)),
            i <= items@.len(),
            filter_mapped(iv.subrange(0, i as int), r@, ok, made),
        decreases items@.len() - i,
    {
        let x = parse_trait_contact(&items[i]);
        proof {
            lemma_filter_step(iv, i as int, r@, x, ok, made);
        }
        match x {
            Some(c) => r.push(c),
            None => {},
        }
        i = i + 1;
    }
    assert(iv.subrange(0, i as int) =~= iv);
    r
}

/// A single trait count: an object with members that holds one.
pub open spec fn single_trait(v: Option<JsonView>, r: Option<TraitContactData>) -> bool {
    let ok = match v {
        Some(x) => match object_members(x) {
            Some(m) => m.len() > 0 && contact_ok(x),
            None => false,
        },
        None => false,
    };
    match r {
        Some(c) => ok && contact_made(c, v->0),
        None => !ok,
    }
}

fn parse_single_trait(value: Option<&JsonValue>) -> (r: Option<TraitContactData>)
    ensures
        single_trait(opt_view(value), r),
{
    match value {
        Some(v) => {
            let nonempty = match v {
                JsonValue::Object(m) => m.len() > 0,
                _ => false,
            };
            if nonempty {
                parse_trait_contact(v)
            } else {
                None
            }
        },
        None => None,
    }
}

pub open spec fn replacement_ok(v: JsonView) -> bool {
    hero_text(v).len() > 0
}

pub open spec fn replacement_made(h: HeroReplacementData, v: JsonView) -> bool {
    &&& h.hero_id@ == hero_text(v)
    &&& views(h.replacement_hero_ids@) == comma_ids(text_or(text_in(member(v, "replace_heros"@)), Seq::empty()))
}

fn parse_hero_replacements(value: Option<&JsonValue>) -> (r: Vec<HeroReplacementData>)
    ensures
        entries_of(
            opt_view(value),
            r@,
            |v: JsonView| replacement_ok(v),
            |h: HeroReplacementData, v: JsonView| replacement_made(h, v),
        ),
{
    proof {
        reveal_strlit("");
    }
    let mut r: Vec<HeroReplacementData> = Vec::new();
    let items = match value {
        Some(a) => match a.as_array() {
            Some(items) => items,
            None => return r,
        },
        None => return r,
    };
    let ghost iv = items@.map_values(|x: JsonValue| x@);
    let ghost ok = |v: JsonView| replacement_ok(v);
    let ghost made = |h: HeroReplacementData, v: JsonView| replacement_made(h, v);
    let mut i: usize = 0;
    while i < items.len()
        invariant
            iv == items@.map_values(|x: JsonValue| x@),
            ok == (|v: JsonView| replacement_ok(v)),
            made == (|h: HeroReplacementData, v: JsonView| replacement_made(h, v)),
            i <= items@.len(),
            filter_mapped(iv.subrange(0, i as int), r@, ok, made),
        decreases items@.len() - i,
    {
        proof {
            reveal_strlit("");
        }
        let v = &items[i];
        let hero_id = text_or_default(text_of_value(v.get("hero_id")), "");
        let x = if hero_id.as_str().is_empty() {
            None
        } else {
            Some(HeroReplacementData {
                hero_id,
                replacement_hero_ids: split_comma_ids(text_of_value(v.get("replace_heros"))),
            })
        };
        proof {
            lemma_filter_step(iv, i as int, r@, x, ok, made);
        }
        match x {
            Some(h) => r.push(h),
            None => {},
        }
        i = i + 1;
    }
    assert(iv.subrange(0, i as int) =~= iv);
    r
}

pub open spec fn task_text(v: JsonView) -> Seq<char> {
    text_or(flexible_id_in(member(v, "task_id"@)), Seq::empty())
}

pub open spec fn task_ok(v: JsonView) -> bool {
    task_text(v).len() > 0
}

/// The hero of a task is its id without the last two characters (the task
/// number), or the whole id when it is shorter.
pub open spec fn task_made(t: UnlockTaskData, v: JsonView) -> bool {
    let id = task_text(v);
    &&& t.task_id@ == id
    &&& t.hero_id@ == if id.len() >= 2 { id.subrange(0, id.len() - 2) } else { id }
    &&& t.chess_id@ == text_or(flexible_id_in(member(v, "chess_id"@)), Seq::empty())
}

fn task_hero(id: &String) -> (r: String)
    ensures
        r@ == if id@.len() >= 2 { id@.subrange(0, id@.len() - 2) } else { id@ },
{
    let cs = chars_of(id.as_str());
    if cs.len() >= 2 {
        let mut v: Vec<char> = Vec::new();
        let mut i: usize = 0;
        while i < cs.len() - 2
            invariant
                cs@ == id@,
                cs@.len() >= 2,
                i <= cs@.len() - 2,
                v@ == cs@.subrange(0, i as int),
            decreases cs@.len() - 2 - i,
        {
            v.push(cs[i]);
            i = i + 1;
            assert(v@ =~= cs@.subrange(0, i as int));
        }
        string_from_chars(&v)
    } else {
        id.clone()
    }
}

fn parse_unlock_tasks(value: Option<&JsonValue>) -> (r: Vec<UnlockTaskData>)
    ensures
        entries_of(opt_view(value), r@, |v: JsonView| task_ok(v), |t: UnlockTaskData, v: JsonView| task_made(t, v)),
{
    let mut r: Vec<UnlockTaskData> = Vec::new();
    let items = match value {
        Some(a) => match a.as_array() {
            Some(items) => items,
            None => return r,
        },
        None => return r,
    };
    let ghost iv = items@.map_values(|x: JsonValue| x@);
    let ghost ok = |v: JsonView| task_ok(v);
    let ghost made = |t: UnlockTaskData, v: JsonView| task_made(t, v);
    let mut i: usize = 0;
    while i < items.len()
        invariant
            iv == items@.map_values(|x: JsonValue| x@),
            ok == (|v: JsonView| task_ok(v)),
            made == (|t: UnlockTaskData, v: JsonView| task_made(t, v)),
            i <= items@.len(),
            filter_mapped(iv.subrange(0, i as int), r@, ok, made),
        decreases items@.len() - i,
    {
        let v = &items[i];
        let task_id = flexible_id_or_empty(v.get("task_id"));
        let x = if task_id.as_str().is_empty() {
            None
        } else {
            Some(UnlockTaskData {
                hero_id: task_hero(&task_id),
                chess_id: flexible_id_or_empty(v.get("chess_id")),
                task_id,
            })
        };
        proof {
            lemma_filter_step(iv, i as int, r@, x, ok, made);
        }
        match x {
            Some(t) => r.push(t),
            None => {},
        }
        i = i + 1;
    }
    assert(iv.subrange(0, i as int) =~= iv);
    r
}

/// The ids of the entries of an array: strings and numbers as text, empty ones
/// left out.
pub open spec fn flex_ids(items: Seq<JsonView>) -> Seq<Seq<char>>
    decreases items.len(),
{
    if items.len() == 0 {
        Seq::empty()
    } else {
        match flexible_id(items.last()) {
            Some(t) => if t.len() > 0 { flex_ids(items.drop_last()).push(t) } else { flex_ids(items.drop_last()) },
            None => flex_ids(items.drop_last()),
        }
    }
}

/// Wish ids: an array of ids, or a comma-separated text; none otherwise.
pub open spec fn wish_ids_of(v: Option<JsonView>) -> Seq<Seq<char>> {
    match v {
        Some(JsonView::Array(items)) => flex_ids(items),
        Some(JsonView::Str(s)) => comma_ids(s),
        _ => comma_ids(Seq::empty()),
    }
}

fn parse_wish_ids(value: Option<&JsonValue>) -> (r: Vec<String>)
    ensures
        views(r@) == wish_ids_of(opt_view(value)),
{
    let v = match value {
        Some(v) => v,
        None => return split_comma_ids(None),
    };
    match v.as_array() {
        Some(items) => {
            let ghost iv = items@.map_values(|x: JsonValue| x@);
            let mut r: Vec<String> = Vec::new();
            let mut i: usize = 0;
            while i < items.len()
                invariant
                    iv == items@.map_values(|x: JsonValue| x@),
                    i <= items@.len(),
                    views(r@) == flex_ids(iv.subrange(0, i as int)),
                decreases items@.len() - i,
            {
                assert(iv.subrange(0, i + 1).drop_last() =~= iv.subrange(0, i as int));
                assert(iv.subrange(0, i + 1).last() == items@[i as int]@);
                match flexible_id_of(&items[i]) {
                    Some(t) => {
                        if !t.as_str().is_empty() {
                            let ghost before = views(r@);
                            let ghost tv = t@;
                            r.push(t);
                            assert(views(r@) =~= before.push(tv));
                        }
                    },
                    None => {},
                }
                i = i + 1;
            }
            assert(iv.subrange(0, i as int) =~= iv);
            r
        },
        None => match v.as_str() {
            Some(s) => split_comma_ids(Some(s)),
            None => split_comma_ids(None),
        },
    }
}

pub open spec fn god_text(v: JsonView) -> Seq<char> {
    text_or(flexible_id_in(member(v, "god_id"@)), Seq::empty())
}

pub open spec fn god_ok(v: JsonView) -> bool {
    god_text(v).len() > 0
}

pub open spec fn god_made(g: GodRewardData, v: JsonView) -> bool {
    &&& g.god_id@ == god_text(v)
    &&& g.stage == int_or_zero(member(v, "stage_num"@))
    &&& views(g.wish_ids@) == wish_ids_of(member(v, "wishes"@))
}

fn parse_god_rewards(value: Option<&JsonValue>) -> (r: Vec<GodRewardData>)
    ensures
        entries_of(opt_view(value), r@, |v: JsonView| god_ok(v), |g: GodRewardData, v: JsonView| god_made(g, v)),
{
    let mut r: Vec<GodRewardData> = Vec::new();
    let items = match value {
        Some(a) => match a.as_array() {
            Some(items) => items,
            None => return r,
        },
        None => return r,
    };
    let ghost iv = items@.map_values(|x: JsonValue| x@);
    let ghost ok = |v: JsonView| god_ok(v);
    let ghost made = |g: GodRewardData, v: JsonView| god_made(g, v);
    let mut i: usize = 0;
    while i < items.len()
        invariant
            iv == items@.map_values(|x: JsonValue| x@),
            ok == (|v: JsonView| god_ok(v)),
            made == (|g: GodRewardData, v: JsonView| god_made(g, v)),
            i <= items@.len(),
            filter_mapped(iv.subrange(0, i as int), r@, ok, made),
        decreases items@.len() - i,
    {
        let v = &items[i];
        let god_id = flexible_id_or_empty(v.get("god_id"));
        let x = if god_id.as_str().is_empty() {
            None
        } else {
            Some(GodRewardData {
                stage: int_or_zero_of(v.get("stage_num")),
                god_id,
                wish_ids: parse_wish_ids(v.get("wishes")),
            })
        };
        proof {
            lemma_filter_step(iv, i as int, r@, x, ok, made);
        }
        match x {
            Some(g) => r.push(g),
            None => {},
        }
        i = i + 1;
    }
    assert(iv.subrange(0, i as int) =~= iv);
    r
}

pub open spec fn backup_ok(v: JsonView) -> bool {
    text_or(text_in(member(v, "hero_$key_id"@)), Seq::empty()).len() > 0 || text_or(
        text_in(member(v, "id"@)),
        Seq::empty(),
    ).len() > 0
}

pub open spec fn backup_made(b: ChosenBackupData, v: JsonView) -> bool {
    &&& b.hero_id@ == text_or(text_in(member(v, "hero_$key_id"@)), Seq::empty())
    &&& b.trait_id@ == text_or(text_in(member(v, "id"@)), Seq::empty())
    &&& b.backup_type@ == text_or(text_in(member(v, "type"@)), Seq::empty())
}

fn parse_chosen_backups(value: Option<&JsonValue>) -> (r: Vec<ChosenBackupData>)
    ensures
        entries_of(opt_view(value), r@, |v: JsonView| backup_ok(v), |b: ChosenBackupData, v: JsonView| backup_made(b, v)),
{
    let mut r: Vec<ChosenBackupData> = Vec::new();
    let items = match value {
        Some(a) => match a.as_array() {
            Some(items) => items,
            None => return r,
        },
        None => return r,
    };
    let ghost iv = items@.map_values(|x: JsonValue| x@);
    let ghost ok = |v: JsonView| backup_ok(v);
    let ghost made = |b: ChosenBackupData, v: JsonView| backup_made(b, v);
    let mut i: usize = 0;
    while i < items.len()
        invariant
            iv == items@.map_values(|x: JsonValue| x@),
            ok == (|v: JsonView| backup_ok(v)),
            made == (|b: ChosenBackupData, v: JsonView| backup_made(b, v)),
            i <= items@.len(),
            filter_mapped(iv.subrange(0, i as int), r@, ok, made),
        decreases items@.len() - i,
    {
        proof {
            reveal_strlit("");
        }
        let v = &items[i];
        let hero_id = text_or_default(text_of_value(v.get("hero_$key_id")), "");
        let trait_id = text_or_default(text_of_value(v.get("id")), "");
        assert(iv[i as int] == v@);
        assert(hero_id@ == text_or(text_in(member(v@, "hero_$key_id"@)), Seq::empty()));
        assert(trait_id@ == text_or(text_in(member(v@, "id"@)), Seq::empty()));
        let x = if hero_id.as_str().is_empty() && trait_id.as_str().is_empty() {
            assert(!backup_ok(v@));
            None
        } else {
            let b = ChosenBackupData { hero_id, trait_id, backup_type: text_or_default(text_of_value(v.get("type")), "") };
            assert(b.hero_id@ == text_or(text_in(member(v@, "hero_$key_id"@)), Seq::empty()));
            assert(b.trait_id@ == text_or(text_in(member(v@, "id"@)), Seq::empty()));
            assert(backup_ok(v@));
            assert(b.backup_type@ == text_or(text_in(member(v@, "type"@)), Seq::empty()));
            assert(backup_made(b, v@));
            Some(b)
        };
        proof {
            lemma_filter_step(iv, i as int, r@, x, ok, made);
        }
        match x {
            Some(b) => r.push(b),
            None => {},
        }
        i = i + 1;
    }
    assert(iv.subrange(0, i as int) =~= iv);
    r
}

// ---------------------------------------------------------------------------
// Names and tags
// ---------------------------------------------------------------------------

/// The position of the first `c` in `s`, or -1.
pub open spec fn first_pos(s: Seq<char>, c: char) -> int
    decreases s.len(),
{
    if s.len() == 0 {
        -1
    } else if first_pos(s.drop_last(), c) >= 0 {
        first_pos(s.drop_last(), c)
    } else if s.last() == c {
        s.len() - 1
    } else {
        -1
    }
}

pub open spec fn is_name_sep(c: char) -> bool {
    c == ' ' || c == '/' || c == '、'
}

/// The non-empty pieces of `s` between spaces, slashes and `、`.
pub open spec fn name_pieces(s: Seq<char>) -> Seq<Seq<char>>
    decreases s.len(),
{
    if s.len() == 0 {
        Seq::empty()
    } else {
        let p = name_pieces(s.drop_last());
        let c = s.last();
        if is_name_sep(c) {
            p
        } else if s.len() >= 2 && !is_name_sep(s[s.len() - 2]) {
            p.update(p.len() - 1, p.last().push(c))
        } else {
            p.push(seq![c])
        }
    }
}

/// The traits named between `【` and `】` in a lineup name.
pub open spec fn bracket_traits(name: Seq<char>) -> Seq<Seq<char>> {
    let a = first_pos(name, '【');
    let b = first_pos(name, '】');
    if a >= 0 && b >= 0 && a < b {
        name_pieces(name.subrange(a + 1, b))
    } else {
        Seq::empty()
    }
}

fn find_char(cs: &Vec<char>, c: char) -> (r: Option<usize>)
    ensures
        match r {
            Some(i) => first_pos(cs@, c) == i as int && i < cs@.len(),
            None => first_pos(cs@, c) == -1,
        },
{
    let mut i: usize = 0;
    while i < cs.len()
        invariant
            i <= cs@.len(),
            first_pos(cs@.subrange(0, i as int), c) == -1,
        decreases cs@.len() - i,
    {
        assert(cs@.subrange(0, i + 1).drop_last() =~= cs@.subrange(0, i as int));
        if cs[i] == c {
            proof {
                lemma_first_pos_prefix(cs@, c, i as int + 1);
            }
            return Some(i);
        }
        i = i + 1;
    }
    assert(cs@.subrange(0, i as int) =~= cs@);
    None
}

/// Where a prefix holds `c`, so does the whole text, at the same place.
proof fn lemma_first_pos_prefix(s: Seq<char>, c: char, n: int)
    requires
        0 <= n <= s.len(),
        first_pos(s.subrange(0, n), c) >= 0,
    ensures
        first_pos(s, c) == first_pos(s.subrange(0, n), c),
    decreases s.len() - n,
{
    if n < s.len() {
        assert(s.subrange(0, n + 1).drop_last() =~= s.subrange(0, n));
        lemma_first_pos_prefix(s, c, n + 1);
    } else {
        assert(s.subrange(0, n) =~= s);
    }
}

fn name_traits(name: &str) -> (r: Vec<String>)
    ensures
        views(r@) == bracket_traits(name@),
{
    let cs = chars_of(name);
    let a = find_char(&cs, '【');
    let b = find_char(&cs, '】');
    match (a, b) {
        (Some(a), Some(b)) => {
            if a < b {
                let ghost inner = cs@.subrange(a + 1, b as int);
                let mut pieces: Vec<String> = Vec::new();
                let mut cur: Vec<char> = Vec::new();
                let mut i: usize = a + 1;
                assert(inner.subrange(0, 0) =~= Seq::<char>::empty());
                while i < b
                    invariant
                        a < b <= cs@.len(),
                        inner == cs@.subrange(a + 1, b as int),
                        a + 1 <= i <= b,
                        (if cur@.len() > 0 { views(pieces@).push(cur@) } else { views(pieces@) }) == name_pieces(
                            inner.subrange(0, i - a - 1),
                        ),
                        cur@.len() > 0 ==> i > a + 1 && !is_name_sep(cs@[i - 1]),
                        cur@.len() == 0 ==> (i == a + 1 || is_name_sep(cs@[i - 1])),
                    decreases b - i,
                {
                    let ghost pre = inner.subrange(0, i - a - 1);
                    let ghost nxt = inner.subrange(0, i - a);
                    assert(nxt.drop_last() =~= pre);
                    assert(nxt.last() == cs@[i as int]);
                    let c = cs[i];
                    if c == ' ' || c == '/' || c == '、' {
                        if cur.len() > 0 {
                            let piece = string_from_chars(&cur);
                            let ghost before = views(pieces@);
                            pieces.push(piece);
                            assert(views(pieces@) =~= before.push(piece@));
                            cur = Vec::new();
                        }
                    } else {
                        let ghost old_cur = cur@;
                        proof {
                            if i > a + 1 {
                                assert(nxt[nxt.len() - 2] == cs@[i - 1]);
                            }
                        }
                        cur.push(c);
                        assert(views(pieces@).push(cur@) =~= name_pieces(nxt)) by {
                            assert(!is_name_sep(nxt.last()));
                            if old_cur.len() > 0 {
                                assert(name_pieces(pre) == views(pieces@).push(old_cur));
                                assert(!is_name_sep(nxt[nxt.len() - 2]));
                                assert(name_pieces(nxt) == name_pieces(pre).update(
                                    name_pieces(pre).len() - 1,
                                    name_pieces(pre).last().push(c),
                                ));
                                assert(cur@ == old_cur.push(c));
                            } else {
                                assert(name_pieces(pre) == views(pieces@));
                                assert(nxt.len() >= 2 ==> is_name_sep(nxt[nxt.len() - 2]));
                                assert(name_pieces(nxt) == name_pieces(pre).push(seq![c]));
                                assert(cur@ =~= seq![c]);
                            }
                        }
                    }
                    i = i + 1;
                }
                assert(inner.subrange(0, b - a - 1) =~= inner);
                if cur.len() > 0 {
                    let piece = string_from_chars(&cur);
                    let ghost before = views(pieces@);
                    pieces.push(piece);
                    assert(views(pieces@) =~= before.push(piece@));
                }
                pieces
            } else {
                Vec::new()
            }
        },
        _ => {
            let r: Vec<String> = Vec::new();
            assert(views(r@) =~= Seq::<Seq<char>>::empty());
            r
        },
    }
}

/// The texts among the items, in order.
pub open spec fn texts_only(items: Seq<JsonView>) -> Seq<Seq<char>>
    decreases items.len(),
{
    if items.len() == 0 {
        Seq::empty()
    } else {
        match text_of(items.last()) {
            Some(t) => texts_only(items.drop_last()).push(t),
            None => texts_only(items.drop_last()),
        }
    }
}

pub open spec fn one_or_none(t: Option<Seq<char>>) -> Seq<Seq<char>> {
    match t {
        Some(s) => seq![s],
        None => Seq::empty(),
    }
}

/// The smart-lineup tag group of a detail document.
pub open spec fn tag_group(p: JsonView) -> Option<JsonView> {
    field(member(p, "smar_lineup_tag"@), "all"@)
}

/// The tags of a lineup: the texts of the tag array, or the single tag
/// text, or else its category.
pub open spec fn tags_of(p: JsonView, fallback: Option<Seq<char>>) -> Seq<Seq<char>> {
    match field(tag_group(p), "tag"@) {
        Some(t) => match items_of(t) {
            Some(items) => texts_only(items),
            None => match text_of(t) {
                Some(s) => seq![s],
                None => one_or_none(fallback),
            },
        },
        None => one_or_none(fallback),
    }
}

fn texts_of_items(items: &Vec<JsonValue>) -> (r: Vec<String>)
    ensures
        views(r@) == texts_only(items@.map_values(|x: JsonValue| x@)),
{
    let ghost iv = items@.map_values(|x: JsonValue| x@);
    let mut r: Vec<String> = Vec::new();
    let mut i: usize = 0;
    while i < items.len()
        invariant
            iv == items@.map_values(|x: JsonValue| x@),
            i <= items@.len(),
            views(r@) == texts_only(iv.subrange(0, i as int)),
        decreases items@.len() - i,
    {
        assert(iv.subrange(0, i + 1).drop_last() =~= iv.subrange(0, i as int));
        assert(iv.subrange(0, i + 1).last() == items@[i as int]@);
        match items[i].as_str() {
            Some(t) => {
                let ghost before = views(r@);
                r.push(owned(t));
                assert(views(r@) =~= before.push(t@));
            },
            None => {},
        }
        i = i + 1;
    }
    assert(iv.subrange(0, i as int) =~= iv);
    r
}

fn parse_tags(payload: &JsonValue, fallback: Option<&str>) -> (r: Vec<String>)
    ensures
        views(r@) == tags_of(
            payload@,
            match fallback {
                Some(c) => Some(c@),
                None => None,
            },
        ),
{
    let all = get_field(payload.get("smar_lineup_tag"), "all");
    let mut r: Vec<String> = Vec::new();
    match get_field(all, "tag") {
        Some(t) => match t.as_array() {
            Some(items) => {
                return texts_of_items(items);
            },
            None => match t.as_str() {
                Some(s) => {
                    r.push(owned(s));
                    assert(views(r@) =~= seq![s@]);
                    return r;
                },
                None => {},
            },
        },
        None => {},
    }
    match fallback {
        Some(c) => {
            r.push(owned(c));
            assert(views(r@) =~= seq![c@]);
        },
        None => {
            assert(views(r@) =~= Seq::<Seq<char>>::empty());
        },
    }
    r
}

// ---------------------------------------------------------------------------
// Lineup detail
// ---------------------------------------------------------------------------

pub open spec fn ids_at(v: Option<JsonView>, key: Seq<char>) -> Seq<Seq<char>> {
    comma_ids(text_or(text_in(field(v, key)), Seq::empty()))
}

/// The lineup detail read from a detail document.
pub open spec fn detail_made(d: LineupDetailData, p: JsonView) -> bool {
    let sp = Some(p);
    let hex = member(p, "hexbuff"@);
    &&& entries_of(member(p, "hero_location"@), d.final_heroes@, |v: JsonView| piece_ok(v), |x: LineupPieceData, v: JsonView| piece_made(x, v))
    &&& entries_of(member(p, "y21_early_heros"@), d.early_heroes@, |v: JsonView| piece_ok(v), |x: LineupPieceData, v: JsonView| piece_made(x, v))
    &&& entries_of(member(p, "y21_metaphase_heros"@), d.mid_heroes@, |v: JsonView| piece_ok(v), |x: LineupPieceData, v: JsonView| piece_made(x, v))
    &&& views(d.recommended_hex_ids@) == ids_at(hex, "recomm"@)
    &&& views(d.replacement_hex_ids@) == ids_at(hex, "replace"@)
    &&& views(d.equipment_order_ids@) == ids_at(sp, "equipment_order"@)
    &&& views(d.level_3_hero_ids@) == ids_at(sp, "level_3_heros"@)
    &&& entries_of(member(p, "hero_replace"@), d.hero_replacements@, |v: JsonView| replacement_ok(v), |x: HeroReplacementData, v: JsonView| replacement_made(x, v))
    &&& entries_of(member(p, "task_list"@), d.unlock_tasks@, |v: JsonView| task_ok(v), |x: UnlockTaskData, v: JsonView| task_made(x, v))
    &&& entries_of(member(p, "god_list"@), d.god_rewards@, |v: JsonView| god_ok(v), |x: GodRewardData, v: JsonView| god_made(x, v))
    &&& entries_of(member(p, "contact"@), d.official_traits@, |v: JsonView| contact_ok(v), |x: TraitContactData, v: JsonView| contact_made(x, v))
    &&& entries_of(member(p, "y21_early_heros_contact"@), d.early_traits@, |v: JsonView| contact_ok(v), |x: TraitContactData, v: JsonView| contact_made(x, v))
    &&& entries_of(member(p, "y21_metaphase_heros_contact"@), d.mid_traits@, |v: JsonView| contact_ok(v), |x: TraitContactData, v: JsonView| contact_made(x, v))
    &&& single_trait(member(p, "chosen_contact"@), d.chosen_contact)
    &&& single_trait(member(p, "messengerContact"@), d.messenger_contact)
    &&& entries_of(member(p, "chosen_backup"@), d.chosen_backups@, |v: JsonView| backup_ok(v), |x: ChosenBackupData, v: JsonView| backup_made(x, v))
    &&& detail_texts_made(d, p)
}

/// The texts of a lineup detail: strings and numbers as text.
pub open spec fn detail_texts_made(d: LineupDetailData, p: JsonView) -> bool {
    &&& d.line_feature@ == value_text(member(p, "line_feature"@))
    &&& d.early_info@ == value_text(member(p, "early_info"@))
    &&& d.d_time@ == value_text(member(p, "d_time"@))
    &&& d.location_info@ == value_text(member(p, "location_info"@))
    &&& d.location_info2@ == value_text(member(p, "location_info_2"@))
    &&& d.enemy_info@ == value_text(member(p, "enemy_info"@))
    &&& d.hex_info@ == value_text(member(p, "hex_info"@))
    &&& d.equipment_info@ == value_text(member(p, "equipment_info"@))
    &&& d.god_reward_info@ == value_text(member(p, "godreward_info"@))
    &&& d.task_info@ == value_text(member(p, "task_info"@))
    &&& d.chosen_info@ == value_text(member(p, "chosen_info"@))
    &&& d.early_round@ == value_text(member(p, "early_round"@))
    &&& d.mid_round@ == value_text(member(p, "metaphase_round"@))
    &&& d.staff_info@ == value_text(member(p, "staff_info"@))
    &&& d.goop_info@ == value_text(member(p, "goop_info"@))
    &&& d.trait_party_info@ == value_text(member(p, "traitparty_info"@))
    &&& d.legend_galaxy_info@ == value_text(member(p, "legendgalaxyinfo"@))
}

fn ids_of(v: Option<&JsonValue>, key: &str) -> (r: Vec<String>)
    ensures
        views(r@) == ids_at(opt_view(v), key@),
{
    proof {
        reveal_strlit("");
    }
    let t = text_of_value(get_field(v, key));
    let text: &str = match t {
        Some(x) => x,
        None => "",
    };
    split_comma_ids(Some(text))
}

impl LineupAdapter {
    /// The lineup detail of a detail document.
    pub fn detail_from_payload(payload: &JsonValue) -> (d: LineupDetailData)
        ensures
            detail_made(d, payload@),
    {
        let hex_buff = payload.get("hexbuff");
        let some = Some(payload);
        let d = LineupDetailData {
            final_heroes: parse_pieces(payload.get("hero_location")),
            early_heroes: parse_pieces(payload.get("y21_early_heros")),
            mid_heroes: parse_pieces(payload.get("y21_metaphase_heros")),
            recommended_hex_ids: ids_of(hex_buff, "recomm"),
            replacement_hex_ids: ids_of(hex_buff, "replace"),
            equipment_order_ids: ids_of(some, "equipment_order"),
            level_3_hero_ids: ids_of(some, "level_3_heros"),
            hero_replacements: parse_hero_replacements(payload.get("hero_replace")),
            unlock_tasks: parse_unlock_tasks(payload.get("task_list")),
            god_rewards: parse_god_rewards(payload.get("god_list")),
            official_traits: parse_trait_contacts(payload.get("contact")),
            early_traits: parse_trait_contacts(payload.get("y21_early_heros_contact")),
            mid_traits: parse_trait_contacts(payload.get("y21_metaphase_heros_contact")),
            chosen_contact: parse_single_trait(payload.get("chosen_contact")),
            messenger_contact: parse_single_trait(payload.get("messengerContact")),
            chosen_backups: parse_chosen_backups(payload.get("chosen_backup")),
            line_feature: value_text_of(payload.get("line_feature")),
            early_info: value_text_of(payload.get("early_info")),
            d_time: value_text_of(payload.get("d_time")),
            location_info: value_text_of(payload.get("location_info")),
            location_info2: value_text_of(payload.get("location_info_2")),
            enemy_info: value_text_of(payload.get("enemy_info")),
            hex_info: value_text_of(payload.get("hex_info")),
            equipment_info: value_text_of(payload.get("equipment_info")),
            god_reward_info: value_text_of(payload.get("godreward_info")),
            task_info: value_text_of(payload.get("task_info")),
            chosen_info: value_text_of(payload.get("chosen_info")),
            early_round: value_text_of(payload.get("early_round")),
            mid_round: value_text_of(payload.get("metaphase_round")),
            staff_info: value_text_of(payload.get("staff_info")),
            goop_info: value_text_of(payload.get("goop_info")),
            trait_party_info: value_text_of(payload.get("traitparty_info")),
            legend_galaxy_info: value_text_of(payload.get("legendgalaxyinfo")),
        };
        d
    }
}

// ---------------------------------------------------------------------------
// Cards
// ---------------------------------------------------------------------------

pub open spec fn extra_view(raw: LineupRawItem) -> Seq<(Seq<char>, JsonView)> {
    raw.extra@.map_values(|e: (String, JsonValue)| (e.0@, e.1@))
}

/// The detail document of a raw entry; an empty object for an empty detail.
pub open spec fn payload_of(raw: LineupRawItem) -> JsonView {
    if raw.detail@.len() > 0 {
        detail_payload(raw.detail@)
    } else {
        JsonView::Object(Seq::empty())
    }
}

pub open spec fn nonempty_or(t: Option<Seq<char>>) -> Option<Seq<char>> {
    match t {
        Some(s) => if s.len() > 0 { Some(s) } else { None },
        None => None,
    }
}

/// The name of a lineup: the detail's `line_name`, else the entry's `name`,
/// else a placeholder.
pub open spec fn card_name(raw: LineupRawItem) -> Seq<char> {
    match nonempty_or(text_in(member(payload_of(raw), "line_name"@))) {
        Some(n) => n,
        None => match nonempty_or(text_in(lookup(extra_view(raw), "name"@))) {
            Some(n) => n,
            None => "未知阵容"@,
        },
    }
}

/// The id of a lineup: the entry's id, else its queue id, else its name.
pub open spec fn card_id(raw: LineupRawItem) -> Seq<char> {
    let qid = text_or(text_in(lookup(extra_view(raw), "queue_id"@)), Seq::empty());
    if raw.id@.len() > 0 {
        raw.id@
    } else if qid.len() > 0 {
        qid
    } else if card_name(raw).len() > 0 {
        card_name(raw)
    } else {
        "unknown"@
    }
}

/// The author: the author data's name, else the little legend's description
/// or item name, else the entry's author.
pub open spec fn card_author(raw: LineupRawItem) -> Seq<char> {
    let ll = member(payload_of(raw), "author_littlelegend"@);
    match nonempty_or(text_in(member(raw.lineupauthor_data@, "name"@))) {
        Some(n) => n,
        None => match text_in(field(ll, "desc"@)) {
            Some(d) => d,
            None => match text_in(field(ll, "item_name"@)) {
                Some(x) => x,
                None => raw.author@,
            },
        },
    }
}

/// The author's picture: the author data's image, else the little legend's
/// image path or icon, else nothing.
pub open spec fn card_avatar(raw: LineupRawItem) -> Seq<char> {
    let ll = member(payload_of(raw), "author_littlelegend"@);
    match text_in(member(raw.lineupauthor_data@, "imgUrl"@)) {
        Some(a) => a,
        None => match text_in(field(ll, "imagePath"@)) {
            Some(b) => b,
            None => text_or(text_in(field(ll, "icon"@)), Seq::empty()),
        },
    }
}

/// The names of the official trait counts, in order.
pub open spec fn contact_names(items: Seq<JsonView>) -> Seq<Seq<char>>
    decreases items.len(),
{
    if items.len() == 0 {
        Seq::empty()
    } else {
        match text_in(member(items.last(), "name"@)) {
            Some(n) => contact_names(items.drop_last()).push(n),
            None => contact_names(items.drop_last()),
        }
    }
}

/// The trait labels: the official trait names, else the traits in brackets in
/// the lineup name.
pub open spec fn card_traits(raw: LineupRawItem) -> Seq<Seq<char>> {
    let names = match member(payload_of(raw), "contact"@) {
        Some(c) => match items_of(c) {
            Some(items) => contact_names(items),
            None => Seq::empty(),
        },
        None => Seq::empty(),
    };
    if names.len() == 0 {
        bracket_traits(card_name(raw))
    } else {
        names
    }
}

/// The category by line tag: 1 beginner, 2 advanced, 3 entertainment.
pub open spec fn card_category(raw: LineupRawItem) -> Option<Seq<char>> {
    match text_in(member(payload_of(raw), "line_tag"@)) {
        Some(t) => match parse_i32_spec(t) {
            Some(1i32) => Some("新手推荐"@),
            Some(2i32) => Some("高手进阶"@),
            Some(3i32) => Some("趣味娱乐"@),
            _ => None,
        },
        None => None,
    }
}

/// The card of a raw entry.
pub open spec fn card_made(c: LineupCardData, raw: LineupRawItem) -> bool {
    let p = payload_of(raw);
    &&& c.id@ == card_id(raw)
    &&& c.name@ == card_name(raw)
    &&& c.author@ == card_author(raw)
    &&& c.author_avatar@ == card_avatar(raw)
    &&& c.quality@ == if raw.quality@.len() == 0 { "A"@ } else { raw.quality@ }
    &&& views(c.traits@) == card_traits(raw)
    &&& opt_text(c.category) == card_category(raw)
    &&& views(c.tags@) == tags_of(p, card_category(raw))
    &&& opt_view(
        match &c.top4_rate {
            Some(v) => Some(v),
            None => None,
        },
    ) == field(field(tag_group(p), "rate"@), "top4_rate"@)
    &&& detail_made(c.detail, p)
}

fn extra_get<'a>(extra: &'a Vec<(String, JsonValue)>, key: &str) -> (r: Option<&'a JsonValue>)
    ensures
        match r {
            Some(x) => lookup(extra@.map_values(|e: (String, JsonValue)| (e.0@, e.1@)), key@) == Some(x@),
            None => lookup(extra@.map_values(|e: (String, JsonValue)| (e.0@, e.1@)), key@) is None,
        },
{
    let ghost ev = extra@.map_values(|e: (String, JsonValue)| (e.0@, e.1@));
    match first_key(extra, key) {
        Some(i) => {
            proof {
                assert(forall|k: int| 0 <= k < i ==> #[trigger] ev[k].0 == extra@[k].0@);
                lemma_lookup_first(ev, i as int);
            }
            Some(&extra[i].1)
        },
        None => {
            proof {
                assert(forall|k: int| 0 <= k < ev.len() ==> #[trigger] ev[k].0 == extra@[k].0@);
                lemma_lookup_absent(ev, key@);
            }
            None
        },
    }
}

fn nonempty_text<'a>(t: Option<&'a str>) -> (r: Option<&'a str>)
    ensures
        match r {
            Some(s) => nonempty_or(
                match t {
                    Some(x) => Some(x@),
                    None => None,
                },
            ) == Some(s@),
            None => nonempty_or(
                match t {
                    Some(x) => Some(x@),
                    None => None,
                },
            ) is None,
        },
{
    match t {
        Some(s) => if s.is_empty() { None } else { Some(s) },
        None => None,
    }
}

fn contact_name_list(items: &Vec<JsonValue>) -> (r: Vec<String>)
    ensures
        views(r@) == contact_names(items@.map_values(|x: JsonValue| x@)),
{
    let ghost iv = items@.map_values(|x: JsonValue| x@);
    let mut r: Vec<String> = Vec::new();
    let mut i: usize = 0;
    while i < items.len()
        invariant
            iv == items@.map_values(|x: JsonValue| x@),
            i <= items@.len(),
            views(r@) == contact_names(iv.subrange(0, i as int)),
        decreases items@.len() - i,
    {
        assert(iv.subrange(0, i + 1).drop_last() =~= iv.subrange(0, i as int));
        assert(iv.subrange(0, i + 1).last() == items@[i as int]@);
        match text_of_value(items[i].get("name")) {
            Some(t) => {
                let ghost before = views(r@);
                r.push(owned(t));
                assert(views(r@) =~= before.push(t@));
            },
            None => {},
        }
        i = i + 1;
    }
    assert(iv.subrange(0, i as int) =~= iv);
    r
}

impl LineupAdapter {
    /// The card of a raw entry, read from its detail document.
    pub fn card_from_raw(raw: &LineupRawItem) -> (r: Option<LineupCardData>)
        ensures
            r matches Some(c) && card_made(c, *raw),
    {
        proof {
            reveal_strlit("");
        }
        let payload = parse_detail_payload(raw.detail.as_str());
        assert(payload@ == payload_of(*raw));
        let detail = Self::detail_from_payload(&payload);
        let name: String = match nonempty_text(text_of_value(payload.get("line_name"))) {
            Some(n) => owned(n),
            None => match nonempty_text(text_of_value(extra_get(&raw.extra, "name"))) {
                Some(n) => owned(n),
                None => owned("未知阵容"),
            },
        };
        let qid = text_or_default(text_of_value(extra_get(&raw.extra, "queue_id")), "");
        let id = if !raw.id.as_str().is_empty() {
            raw.id.clone()
        } else if !qid.as_str().is_empty() {
            qid
        } else if !name.as_str().is_empty() {
            name.clone()
        } else {
            owned("unknown")
        };
        let ll = payload.get("author_littlelegend");
        let author = match nonempty_text(text_of_value(raw.lineupauthor_data.get("name"))) {
            Some(n) => owned(n),
            None => match text_of_value(get_field(ll, "desc")) {
                Some(d) => owned(d),
                None => match text_of_value(get_field(ll, "item_name")) {
                    Some(x) => owned(x),
                    None => raw.author.clone(),
                },
            },
        };
        let author_avatar = match text_of_value(raw.lineupauthor_data.get("imgUrl")) {
            Some(a) => owned(a),
            None => match text_of_value(get_field(ll, "imagePath")) {
                Some(b) => owned(b),
                None => text_or_default(text_of_value(get_field(ll, "icon")), ""),
            },
        };
        let names = match payload.get("contact") {
            Some(c) => match c.as_array() {
                Some(items) => contact_name_list(items),
                None => Vec::new(),
            },
            None => Vec::new(),
        };
        let traits = if names.len() == 0 {
            name_traits(name.as_str())
        } else {
            names
        };
        let category: Option<String> = match text_of_value(payload.get("line_tag")) {
            Some(t) => match parse_i32(t) {
                Some(1i32) => Some(owned("新手推荐")),
                Some(2i32) => Some(owned("高手进阶")),
                Some(3i32) => Some(owned("趣味娱乐")),
                _ => None,
            },
            None => None,
        };
        let fallback: Option<&str> = match &category {
            Some(c) => Some(c.as_str()),
            None => None,
        };
        let tags = parse_tags(&payload, fallback);
        let rate = get_field(get_field(get_field(payload.get("smar_lineup_tag"), "all"), "rate"), "top4_rate");
        let top4_rate = match rate {
            Some(v) => Some(v.clone()),
            None => None,
        };
        let quality = if raw.quality.as_str().is_empty() {
            owned("A")
        } else {
            raw.quality.clone()
        };
        let c = LineupCardData {
            id,
            name,
            author,
            author_avatar,
            quality,
            traits,
            category,
            tags,
            top4_rate,
            detail,
        };
        assert(c.id@ == card_id(*raw));
        assert(c.name@ == card_name(*raw));
        assert(c.author@ == card_author(*raw));
        assert(c.author_avatar@ == card_avatar(*raw));
        assert(c.quality@ == if raw.quality@.len() == 0 { "A"@ } else { raw.quality@ });
        assert(views(c.traits@) == card_traits(*raw));
        assert(opt_text(c.category) == card_category(*raw));
        assert(views(c.tags@) == tags_of(payload@, card_category(*raw)));
        assert(detail_made(c.detail, payload@));
        Some(c)
    }
}

/// The category of a card as a sort key, empty without one.
pub open spec fn category_key(r: LineupRawItem) -> NamedKey {
    (0i64, 0i64, text_or(card_category(r), Seq::empty()))
}

pub open spec fn name_key(r: LineupRawItem) -> NamedKey {
    (0i64, 0i64, card_name(r))
}

/// `by_name` orders the entries by card name, and `by_category` orders that
/// order by category, both keeping equal keys in their order.
pub open spec fn card_order(raws: Seq<LineupRawItem>, by_name: Seq<usize>, by_category: Seq<usize>) -> bool {
    &&& is_permutation(by_name, raws.len())
    &&& named_sorted(raws.map_values(|r: LineupRawItem| name_key(r)), by_name)
    &&& is_permutation(by_category, raws.len())
    &&& named_sorted(
        Seq::new(raws.len(), |k: int| category_key(raws[by_name[k] as int])),
        by_category,
    )
}

fn card_of(raw: &LineupRawItem) -> (c: LineupCardData)
    ensures
        card_made(c, *raw),
{
    match LineupAdapter::card_from_raw(raw) {
        Some(c) => c,
        None => {
            assert(false);
            LineupCardData {
                id: String::new(),
                name: String::new(),
                author: String::new(),
                author_avatar: String::new(),
                quality: String::new(),
                traits: Vec::new(),
                category: None,
                tags: Vec::new(),
                top4_rate: None,
                detail: LineupAdapter::detail_from_payload(&JsonValue::Null),
            }
        },
    }
}

impl LineupAdapter {
    /// The cards of the raw entries, ordered by category and then by name.
    pub fn cards_from_raw_list(raw_list: &[LineupRawItem], mode: &str) -> (r: Vec<LineupCardData>)
        ensures
            exists|by_name: Seq<usize>, by_category: Seq<usize>|
                card_order(raw_list@, by_name, by_category) && r@.len() == raw_list@.len() && forall|i: int|
                    0 <= i < r@.len() ==> card_made(
                        #[trigger] r@[i],
                        raw_list@[by_name[by_category[i] as int] as int],
                    ),
    {
        proof {
            reveal_strlit("");
        }
        let n = raw_list.len();
        let ghost raws = raw_list@;
        let mut names: Vec<(i64, i64, String)> = Vec::new();
        let mut cats: Vec<String> = Vec::new();
        let mut j: usize = 0;
        while j < n
            invariant
                n == raws.len(),
                raws == raw_list@,
                j <= n,
                named_views(names@) == raws.subrange(0, j as int).map_values(|r: LineupRawItem| name_key(r)),
                cats@.len() == j,
                forall|k: int| 0 <= k < j ==> (#[trigger] cats@[k])@ == text_or(card_category(raws[k]), Seq::empty()),
            decreases n - j,
        {
            proof {
                reveal_strlit("");
            }
            let c = card_of(&raw_list[j]);
            let cat = match &c.category {
                Some(x) => x.clone(),
                None => owned(""),
            };
            assert(cat@ == text_or(card_category(raws[j as int]), Seq::empty()));
            let ghost before = named_views(names@);
            names.push((0i64, 0i64, c.name));
            assert(named_views(names@) =~= before.push(name_key(raws[j as int])));
            cats.push(cat);
            j = j + 1;
            assert(raws.subrange(0, j as int).map_values(|r: LineupRawItem| name_key(r)) =~= raws.subrange(
                0,
                j - 1,
            ).map_values(|r: LineupRawItem| name_key(r)).push(name_key(raws[j - 1])));
        }
        assert(raws.subrange(0, n as int) =~= raws);
        let by_name = named_order(&names);
        let mut cat_keys: Vec<(i64, i64, String)> = Vec::new();
        let mut k: usize = 0;
        while k < n
            invariant
                n == raws.len(),
                raws == raw_list@,
                by_name@.len() == n,
                forall|t: int| 0 <= t < n ==> by_name@[t] < n,
                cats@.len() == n,
                forall|q: int| 0 <= q < n ==> (#[trigger] cats@[q])@ == text_or(card_category(raws[q]), Seq::empty()),
                k <= n,
                named_views(cat_keys@) == Seq::new(k as nat, |q: int| category_key(raws[by_name@[q] as int])),
            decreases n - k,
        {
            let ghost before = named_views(cat_keys@);
            let key_text = cats[by_name[k]].clone();
            assert(key_text@ == text_or(card_category(raws[by_name@[k as int] as int]), Seq::empty()));
            cat_keys.push((0i64, 0i64, key_text));
            assert(named_views(cat_keys@) =~= before.push(category_key(raws[by_name@[k as int] as int])));
            k = k + 1;
            assert(named_views(cat_keys@) =~= Seq::new(k as nat, |q: int| category_key(raws[by_name@[q] as int])));
        }
        let by_category = named_order(&cat_keys);
        let mut out: Vec<LineupCardData> = Vec::new();
        let mut i: usize = 0;
        while i < n
            invariant
                n == raws.len(),
                raws == raw_list@,
                by_name@.len() == n,
                forall|t: int| 0 <= t < n ==> by_name@[t] < n,
                by_category@.len() == n,
                forall|t: int| 0 <= t < n ==> by_category@[t] < n,
                i <= n,
                out@.len() == i,
                forall|q: int| 0 <= q < i ==> card_made(#[trigger] out@[q], raws[by_name@[by_category@[q] as int] as int]),
            decreases n - i,
        {
            out.push(card_of(&raw_list[by_name[by_category[i]]]));
            i = i + 1;
        }
        assert(Seq::new(n as nat, |q: int| category_key(raws[by_name@[q] as int])) =~= Seq::new(
            raws.len(),
            |q: int| category_key(raws[by_name@[q] as int]),
        ));
        assert(card_order(raws, by_name@, by_category@));
        out
    }
}

} // verus!
