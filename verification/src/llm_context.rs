//! The rules context of a lineup as language-model input: a short text of
//! its mode, lineup, heroes, traits, augments, item order and strategy, and a
//! compact JSON object of the same.
use vstd::prelude::*;
use crate::data_types::{EquipRef, HexRef, RuleHeroSnapshot, RuleTraitSnapshot};
use crate::json::{JsonValue, JsonView};
use crate::rules_context::RulesContextOutput;
use crate::text::{cat, int_text, int_to_text, join, joined, owned, push_str, views};

verus! {

/// Builds language-model input from a rules context.
pub struct LlmContextBuilder;

/// What `format!("{:?}", v)` prints for a list of texts `v`.
pub uninterp spec fn debug_text_list(items: Seq<Seq<char>>) -> Seq<char>;

/// `format!("{:?}", v)` on a `Vec<String>`: the `Debug` rendering of the
/// list. The contract claims that the result is the value named
/// `debug_text_list` of the texts.
#[verifier::external_body]
fn debug_list(items: &Vec<String>) -> (r: String)
    ensures
        r@ == debug_text_list(views(items@)),
{
    format!("{:?}", items)
}

/// A hero as `id name[C] cost=N pos=P [items]`, `[C]` for a carry and the
/// item list only where it has items.
pub open spec fn hero_line(h: RuleHeroSnapshot) -> Seq<char> {
    h.id@ + " "@ + h.name@ + (if h.is_carry {
        "[C]"@
    } else {
        seq![]
    }) + " cost="@ + int_text(h.cost as int) + " pos="@ + h.position@ + (if h.equipment_names@.len() == 0 {
        seq![]
    } else {
        " ["@ + joined(views(h.equipment_names@), ", "@) + "]"@
    })
}

/// A trait as `name(type) xN`.
pub open spec fn trait_line(t: RuleTraitSnapshot) -> Seq<char> {
    t.name@ + "("@ + t.trait_type@ + ") x"@ + int_text(t.count as int)
}

/// An augment as `name (Lv.N)`.
pub open spec fn hex_line(h: HexRef) -> Seq<char> {
    h.name@ + " (Lv."@ + int_text(h.level as int) + ")"@
}

/// The strategy texts that are not empty, as `key: text`, in order.
pub open spec fn strategy_parts(entries: Seq<(String, String)>) -> Seq<Seq<char>>
    decreases entries.len(),
{
    if entries.len() == 0 {
        seq![]
    } else {
        let rest = strategy_parts(entries.drop_last());
        let e = entries.last();
        if e.1@.len() == 0 {
            rest
        } else {
            rest.push(e.0@ + ": "@ + e.1@)
        }
    }
}

/// A line that is there only when its list is not empty.
pub open spec fn optional_line(label: Seq<char>, items: Seq<Seq<char>>, sep: Seq<char>) -> Seq<Seq<char>> {
    if items.len() == 0 {
        seq![]
    } else {
        seq![label + joined(items, sep)]
    }
}

/// The lines of the language-model text.
pub open spec fn llm_lines(c: RulesContextOutput) -> Seq<Seq<char>> {
    let heroes = c.final_heroes@.map_values(|h: RuleHeroSnapshot| hero_line(h));
    let traits = c.traits@.map_values(|t: RuleTraitSnapshot| trait_line(t));
    let hexes = (c.augments.recommended@ + c.augments.replacement@).map_values(|h: HexRef| hex_line(h));
    let items = c.equipment.order@.map_values(|e: EquipRef| e.name@);
    seq![
        "模式: "@ + c.mode.name@ + " (S"@ + c.mode.season@ + ")"@,
        "阵容: "@ + c.lineup.name@ + " by "@ + c.lineup.author@,
        "评级: "@ + c.lineup.quality@ + " 标签: "@ + debug_text_list(views(c.lineup.tags@)),
        "英雄: "@ + joined(heroes, " | "@),
        "羁绊: "@ + joined(traits, ", "@),
    ] + optional_line("符文: "@, hexes, ", "@) + optional_line("装备优先级: "@, items, " → "@) + optional_line(
        "策略: "@,
        strategy_parts(c.strategy_texts@),
        "; "@,
    )
}

fn hero_text(h: &RuleHeroSnapshot) -> (r: String)
    ensures
        r@ == hero_line(*h),
{
    let mut r = cat(h.id.as_str(), " ");
    push_str(&mut r, h.name.as_str());
    if h.is_carry {
        push_str(&mut r, "[C]");
    }
    push_str(&mut r, " cost=");
    push_str(&mut r, int_to_text(h.cost as i64).as_str());
    push_str(&mut r, " pos=");
    push_str(&mut r, h.position.as_str());
    if h.equipment_names.len() > 0 {
        push_str(&mut r, " [");
        push_str(&mut r, join(&h.equipment_names, ", ").as_str());
        push_str(&mut r, "]");
    }
    assert(r@ =~= hero_line(*h));
    r
}

fn trait_text(t: &RuleTraitSnapshot) -> (r: String)
    ensures
        r@ == trait_line(*t),
{
    let mut r = cat(t.name.as_str(), "(");
    push_str(&mut r, t.trait_type.as_str());
    push_str(&mut r, ") x");
    push_str(&mut r, int_to_text(t.count as i64).as_str());
    assert(r@ =~= trait_line(*t));
    r
}

fn hex_text(h: &HexRef) -> (r: String)
    ensures
        r@ == hex_line(*h),
{
    let mut r = cat(h.name.as_str(), " (Lv.");
    push_str(&mut r, int_to_text(h.level as i64).as_str());
    push_str(&mut r, ")");
    assert(r@ =~= hex_line(*h));
    r
}

fn push_line(lines: &mut Vec<String>, label: &str, items: &Vec<String>, sep: &str)
    ensures
        views(final(lines)@) == views(old(lines)@) + optional_line(label@, views(items@), sep@),
{
    let ghost before = views(lines@);
    if items.len() > 0 {
        let l = cat(label, join(items, sep).as_str());
        let ghost lv = l@;
        lines.push(l);
        assert(views(lines@) =~= before + seq![lv]);
    } else {
        assert(views(lines@) =~= before + Seq::<Seq<char>>::empty());
    }
}

impl LlmContextBuilder {
    /// The language-model text of a rules context: one line each for the
    /// mode, the lineup, its quality and tags, its heroes and its traits,
    /// then, where they are not empty, the augments, the item order and the
    /// strategy, joined by line breaks.
    pub fn build(context: &RulesContextOutput) -> (r: String)
        ensures
            r@ == joined(llm_lines(*context), "\n"@),
    {
        let c = context;
        let mut heroes: Vec<String> = Vec::new();
        let mut i: usize = 0;
        while i < c.final_heroes.len()
            invariant
                i <= c.final_heroes@.len(),
                heroes@.len() == i,
                forall|k: int| 0 <= k < i ==> (#[trigger] heroes@[k])@ == hero_line(c.final_heroes@[k]),
            decreases c.final_heroes@.len() - i,
        {
            heroes.push(hero_text(&c.final_heroes[i]));
            i = i + 1;
        }
        assert(views(heroes@) =~= c.final_heroes@.map_values(|h: RuleHeroSnapshot| hero_line(h)));
        let mut traits: Vec<String> = Vec::new();
        let mut j: usize = 0;
        while j < c.traits.len()
            invariant
                j <= c.traits@.len(),
                traits@.len() == j,
                forall|k: int| 0 <= k < j ==> (#[trigger] traits@[k])@ == trait_line(c.traits@[k]),
            decreases c.traits@.len() - j,
        {
            traits.push(trait_text(&c.traits[j]));
            j = j + 1;
        }
        assert(views(traits@) =~= c.traits@.map_values(|t: RuleTraitSnapshot| trait_line(t)));
        let ghost all_hexes = c.augments.recommended@ + c.augments.replacement@;
        let mut hexes: Vec<String> = Vec::new();
        let mut k: usize = 0;
        while k < c.augments.recommended.len()
            invariant
                k <= c.augments.recommended@.len(),
                all_hexes == c.augments.recommended@ + c.augments.replacement@,
                hexes@.len() == k,
                forall|q: int| 0 <= q < k ==> (#[trigger] hexes@[q])@ == hex_line(all_hexes[q]),
            decreases c.augments.recommended@.len() - k,
        {
            hexes.push(hex_text(&c.augments.recommended[k]));
            k = k + 1;
        }
        let mut m: usize = 0;
        while m < c.augments.replacement.len()
            invariant
                m <= c.augments.replacement@.len(),
                all_hexes == c.augments.recommended@ + c.augments.replacement@,
                hexes@.len() == c.augments.recommended@.len() + m,
                forall|q: int|
                    0 <= q < c.augments.recommended@.len() + m ==> (#[trigger] hexes@[q])@ == hex_line(all_hexes[q]),
            decreases c.augments.replacement@.len() - m,
        {
            hexes.push(hex_text(&c.augments.replacement[m]));
            m = m + 1;
        }
        assert(views(hexes@) =~= all_hexes.map_values(|h: HexRef| hex_line(h)));
        let mut items: Vec<String> = Vec::new();
        let mut n: usize = 0;
        while n < c.equipment.order.len()
            invariant
                n <= c.equipment.order@.len(),
                items@.len() == n,
                forall|q: int| 0 <= q < n ==> (#[trigger] items@[q])@ == c.equipment.order@[q].name@,
            decreases c.equipment.order@.len() - n,
        {
            items.push(c.equipment.order[n].name.clone());
            n = n + 1;
        }
        assert(views(items@) =~= c.equipment.order@.map_values(|e: EquipRef| e.name@));
        let mut parts: Vec<String> = Vec::new();
        let mut s: usize = 0;
        while s < c.strategy_texts.len()
            invariant
                s <= c.strategy_texts@.len(),
                views(parts@) == strategy_parts(c.strategy_texts@.subrange(0, s as int)),
            decreases c.strategy_texts@.len() - s,
        {
            assert(c.strategy_texts@.subrange(0, s + 1).drop_last() =~= c.strategy_texts@.subrange(0, s as int));
            let e = &c.strategy_texts[s];
            if e.1.unicode_len() > 0 {
                let mut p = cat(e.0.as_str(), ": ");
                push_str(&mut p, e.1.as_str());
                let ghost before = views(parts@);
                let ghost pv = p@;
                parts.push(p);
                assert(views(parts@) =~= before.push(pv));
            }
            s = s + 1;
        }
        assert(c.strategy_texts@.subrange(0, s as int) =~= c.strategy_texts@);
        let mut l1 = cat("模式: ", c.mode.name.as_str());
        push_str(&mut l1, " (S");
        push_str(&mut l1, c.mode.season.as_str());
        push_str(&mut l1, ")");
        let mut l2 = cat("阵容: ", c.lineup.name.as_str());
        push_str(&mut l2, " by ");
        push_str(&mut l2, c.lineup.author.as_str());
        let mut l3 = cat("评级: ", c.lineup.quality.as_str());
        push_str(&mut l3, " 标签: ");
        push_str(&mut l3, debug_list(&c.lineup.tags).as_str());
        let l4 = cat("英雄: ", join(&heroes, " | ").as_str());
        let l5 = cat("羁绊: ", join(&traits, ", ").as_str());
        let mut lines: Vec<String> = vec![l1, l2, l3, l4, l5];
        let ghost first = views(lines@);
        push_line(&mut lines, "符文: ", &hexes, ", ");
        push_line(&mut lines, "装备优先级: ", &items, " → ");
        push_line(&mut lines, "策略: ", &parts, "; ");
        assert(views(lines@) =~= llm_lines(*c));
        join(&lines, "\n")
    }
}


/// Texts as a JSON array of strings.
pub open spec fn text_array(items: Seq<Seq<char>>) -> JsonView {
    JsonView::Array(items.map_values(|t: Seq<char>| JsonView::Str(t)))
}

/// A hero of the compact context: `{carry, cost, equipment, name, position}`.
pub open spec fn compact_hero(h: RuleHeroSnapshot) -> JsonView {
    JsonView::Object(
        seq![
            ("carry"@, JsonView::Bool(h.is_carry)),
            ("cost"@, JsonView::Int(h.cost as i64)),
            ("equipment"@, text_array(views(h.equipment_names@))),
            ("name"@, JsonView::Str(h.name@)),
            ("position"@, JsonView::Str(h.position@)),
        ],
    )
}

/// A trait of the compact context: `{count, name, type}`.
pub open spec fn compact_trait(t: RuleTraitSnapshot) -> JsonView {
    JsonView::Object(
        seq![
            ("count"@, JsonView::Int(t.count as i64)),
            ("name"@, JsonView::Str(t.name@)),
            ("type"@, JsonView::Str(t.trait_type@)),
        ],
    )
}

/// The compact context: mode and season, lineup, author and quality, the
/// heroes and traits, the names of the recommended augments, and the
/// strategy texts as an object, members in key order (the strategy texts in
/// the context's order).
pub open spec fn compact_context(c: RulesContextOutput) -> JsonView {
    JsonView::Object(
        seq![
            ("author"@, JsonView::Str(c.lineup.author@)),
            ("heroes"@, JsonView::Array(c.final_heroes@.map_values(|h: RuleHeroSnapshot| compact_hero(h)))),
            ("hexes"@, text_array(c.augments.recommended@.map_values(|h: HexRef| h.name@))),
            ("lineup"@, JsonView::Str(c.lineup.name@)),
            ("mode"@, JsonView::Str(c.mode.name@)),
            ("quality"@, JsonView::Str(c.lineup.quality@)),
            ("season"@, JsonView::Str(c.mode.season@)),
            (
                "strategy_hints"@,
                JsonView::Object(c.strategy_texts@.map_values(|e: (String, String)| (e.0@, JsonView::Str(e.1@)))),
            ),
            ("traits"@, JsonView::Array(c.traits@.map_values(|t: RuleTraitSnapshot| compact_trait(t)))),
        ],
    )
}

fn texts_json(items: &Vec<String>) -> (r: JsonValue)
    ensures
        r@ == text_array(views(items@)),
{
    let mut out: Vec<JsonValue> = Vec::new();
    let mut i: usize = 0;
    while i < items.len()
        invariant
            i <= items@.len(),
            out@.len() == i,
            forall|k: int| 0 <= k < i ==> (#[trigger] out@[k])@ == JsonView::Str(items@[k]@),
        decreases items@.len() - i,
    {
        out.push(JsonValue::Str(items[i].clone()));
        i = i + 1;
    }
    let r = JsonValue::Array(out);
    proof {
        reveal_with_fuel(crate::json::json_view, 2);
        assert(r@->Array_0 =~= text_array(views(items@))->Array_0);
    }
    r
}

fn hero_json(h: &RuleHeroSnapshot) -> (r: JsonValue)
    ensures
        r@ == compact_hero(*h),
{
    let members = vec![
        (owned("carry"), JsonValue::Bool(h.is_carry)),
        (owned("cost"), JsonValue::Int(h.cost as i64)),
        (owned("equipment"), texts_json(&h.equipment_names)),
        (owned("name"), JsonValue::Str(h.name.clone())),
        (owned("position"), JsonValue::Str(h.position.clone())),
    ];
    let r = JsonValue::Object(members);
    proof {
        reveal_with_fuel(crate::json::json_view, 2);
        assert(r@->Object_0 =~= compact_hero(*h)->Object_0);
    }
    r
}

fn trait_json(t: &RuleTraitSnapshot) -> (r: JsonValue)
    ensures
        r@ == compact_trait(*t),
{
    let members = vec![
        (owned("count"), JsonValue::Int(t.count as i64)),
        (owned("name"), JsonValue::Str(t.name.clone())),
        (owned("type"), JsonValue::Str(t.trait_type.clone())),
    ];
    let r = JsonValue::Object(members);
    proof {
        reveal_with_fuel(crate::json::json_view, 2);
        assert(r@->Object_0 =~= compact_trait(*t)->Object_0);
    }
    r
}

impl LlmContextBuilder {
    /// The compact JSON form of a rules context.
    pub fn build_compact_json(context: &RulesContextOutput) -> (r: JsonValue)
        ensures
            r@ == compact_context(*context),
    {
        let c = context;
        let mut heroes: Vec<JsonValue> = Vec::new();
        let mut i: usize = 0;
        while i < c.final_heroes.len()
            invariant
                i <= c.final_heroes@.len(),
                heroes@.len() == i,
                forall|k: int| 0 <= k < i ==> (#[trigger] heroes@[k])@ == compact_hero(c.final_heroes@[k]),
            decreases c.final_heroes@.len() - i,
        {
            heroes.push(hero_json(&c.final_heroes[i]));
            i = i + 1;
        }
        let mut traits: Vec<JsonValue> = Vec::new();
        let mut j: usize = 0;
        while j < c.traits.len()
            invariant
                j <= c.traits@.len(),
                traits@.len() == j,
                forall|k: int| 0 <= k < j ==> (#[trigger] traits@[k])@ == compact_trait(c.traits@[k]),
            decreases c.traits@.len() - j,
        {
            traits.push(trait_json(&c.traits[j]));
            j = j + 1;
        }
        let mut hexes: Vec<String> = Vec::new();
        let mut k: usize = 0;
        while k < c.augments.recommended.len()
            invariant
                k <= c.augments.recommended@.len(),
                hexes@.len() == k,
                forall|q: int| 0 <= q < k ==> (#[trigger] hexes@[q])@ == c.augments.recommended@[q].name@,
            decreases c.augments.recommended@.len() - k,
        {
            hexes.push(c.augments.recommended[k].name.clone());
            k = k + 1;
        }
        assert(views(hexes@) =~= c.augments.recommended@.map_values(|h: HexRef| h.name@));
        let mut hints: Vec<(String, JsonValue)> = Vec::new();
        let mut s: usize = 0;
        while s < c.strategy_texts.len()
            invariant
                s <= c.strategy_texts@.len(),
                hints@.len() == s,
                forall|q: int|
                    0 <= q < s ==> (#[trigger] hints@[q]).0@ == c.strategy_texts@[q].0@ && hints@[q].1@ == JsonView::Str(
                        c.strategy_texts@[q].1@,
                    ),
            decreases c.strategy_texts@.len() - s,
        {
            hints.push((c.strategy_texts[s].0.clone(), JsonValue::Str(c.strategy_texts[s].1.clone())));
            s = s + 1;
        }
        let ghost hv = heroes@;
        let ghost tv = traits@;
        let ghost sv = hints@;
        let heroes_v = JsonValue::Array(heroes);
        let traits_v = JsonValue::Array(traits);
        let hints_v = JsonValue::Object(hints);
        proof {
            reveal_with_fuel(crate::json::json_view, 2);
            assert(heroes_v@->Array_0 =~= c.final_heroes@.map_values(|h: RuleHeroSnapshot| compact_hero(h)));
            assert(traits_v@->Array_0 =~= c.traits@.map_values(|t: RuleTraitSnapshot| compact_trait(t)));
            assert(hints_v@->Object_0 =~= c.strategy_texts@.map_values(
                |e: (String, String)| (e.0@, JsonView::Str(e.1@)),
            ));
        }
        let members = vec![
            (owned("author"), JsonValue::Str(c.lineup.author.clone())),
            (owned("heroes"), heroes_v),
            (owned("hexes"), texts_json(&hexes)),
            (owned("lineup"), JsonValue::Str(c.lineup.name.clone())),
            (owned("mode"), JsonValue::Str(c.mode.name.clone())),
            (owned("quality"), JsonValue::Str(c.lineup.quality.clone())),
            (owned("season"), JsonValue::Str(c.mode.season.clone())),
            (owned("strategy_hints"), hints_v),
            (owned("traits"), traits_v),
        ];
        let r = JsonValue::Object(members);
        proof {
            reveal_with_fuel(crate::json::json_view, 2);
            assert(r@->Object_0 =~= compact_context(*c)->Object_0);
        }
        r
    }
}

} // verus!
