//! Index over a mode's game data: lookups by id, trait levels, the heroes of a
//! trait, and trait summaries of a lineup (official counts, or counted from
//! its pieces).
use vstd::prelude::*;
use crate::data_types::{
    EquipmentData, GodData, HeroData, HexData, LineupPieceData, MissionData, RuleTraitSnapshot, TraitContactData,
    TraitData,
};
use crate::keyed::{find_value, keys_of, lookup, table_view};
use crate::order::is_permutation;
use crate::ranking::{
    is_last_max, last_max, named_order, named_sorted, named_views, stable_order, stably_sorted, Key3, NamedKey,
};
use crate::text::{cat, id_list, list_has, owned, parse_i32, parse_i32_spec, push_str, split_ids, split_on, split_text, str_eq, views};

verus! {

/// Lookups over the game data of one mode.
pub struct GameDataIndex {
    pub mode: String,
    pub heroes_by_id: Vec<(String, HeroData)>,
    pub equipment_by_id: Vec<(String, EquipmentData)>,
    pub hexes_by_id: Vec<(String, HexData)>,
    /// Every level of every trait.
    pub traits: Vec<TraitData>,
    pub race_names: Vec<(String, String)>,
    pub job_names: Vec<(String, String)>,
    pub equip_names: Vec<(String, String)>,
    pub hero_pictures_by_name: Vec<(String, String)>,
    pub missions_by_id: Vec<(String, MissionData)>,
    pub gods: Vec<GodData>,
}

/// Reads game data files.
pub struct GameDataLoader;

// ---------------------------------------------------------------------------
// Enriching heroes
// ---------------------------------------------------------------------------

/// The star level an id starts with, 1 when it starts with no digit.
pub open spec fn star_of(id: Seq<char>) -> i32 {
    if id.len() > 0 && '0' <= id[0] && id[0] <= '9' {
        (id[0] as u32 - '0' as u32) as i32
    } else {
        1
    }
}

/// A hero with its cost, star level and base key filled in from its price,
/// id and name.
pub open spec fn enriched(h: HeroData) -> HeroData {
    HeroData {
        cost: match parse_i32_spec(h.price@) {
            Some(v) => v,
            None => 0,
        },
        star_level: star_of(h.id@),
        base_key: h.base_key,
        ..h
    }
}

/// The base key of an enriched hero: its name and price.
pub open spec fn base_key_text(h: HeroData) -> Seq<char> {
    h.name@ + "_"@ + h.price@
}

/// `after` is the entry `before` with its hero enriched: the same key, the
/// cost, star level and base key filled in, every other field kept.
pub open spec fn is_enriched(before: (String, HeroData), after: (String, HeroData)) -> bool {
    &&& after.0 == before.0
    &&& after.1 == (HeroData { base_key: after.1.base_key, ..enriched(before.1) })
    &&& after.1.base_key@ == base_key_text(before.1)
}

/// Enriching a hero keeps its key and its other fields and fills in three:
/// the cost is the price read as a number (0 when it does not read), the star
/// level is the id's leading digit (1 without one), and the base key is
/// `name_price`.
pub proof fn lemma_enriched_hero(before: (String, HeroData), after: (String, HeroData))
    requires
        is_enriched(before, after),
    ensures
        after.0 == before.0,
        after.1.cost == match parse_i32_spec(before.1.price@) {
            Some(v) => v,
            None => 0,
        },
        after.1.star_level == star_of(before.1.id@),
        after.1.base_key@ == before.1.name@ + "_"@ + before.1.price@,
        after.1.id == before.1.id,
        after.1.name == before.1.name,
        after.1.price == before.1.price,
        after.1.species == before.1.species,
        after.1.hero_class == before.1.hero_class,
        after.1.picture == before.1.picture,
{
}

fn star_level_of(id: &str) -> (r: i32)
    ensures
        r == star_of(id@),
{
    let v = crate::text::chars_of(id);
    if v.len() > 0 && '0' <= v[0] && v[0] <= '9' {
        (v[0] as u32 - '0' as u32) as i32
    } else {
        1
    }
}

proof fn lemma_levels_of(traits: Seq<TraitData>, check_id: Seq<char>)
    ensures
        forall|i: int| 0 <= i < levels_of(traits, check_id).len() ==> (#[trigger] levels_of(traits, check_id)[i]).checkId@
            == check_id,
        forall|k: int| 0 <= k < traits.len() && (#[trigger] traits[k]).checkId@ == check_id ==> levels_of(
            traits,
            check_id,
        ).contains(traits[k]),
    decreases traits.len(),
{
    if traits.len() > 0 {
        let p = levels_of(traits.drop_last(), check_id);
        let l = levels_of(traits, check_id);
        lemma_levels_of(traits.drop_last(), check_id);
        assert forall|i: int| 0 <= i < l.len() implies (#[trigger] l[i]).checkId@ == check_id by {
            if i < p.len() {
                assert(l[i] == p[i]);
            }
        }
        assert forall|k: int| 0 <= k < traits.len() && (#[trigger] traits[k]).checkId@ == check_id implies l.contains(
            traits[k],
        ) by {
            if k < traits.len() - 1 {
                assert(traits.drop_last()[k] == traits[k]);
                let q = choose|q: int| 0 <= q < p.len() && p[q] == traits[k];
                assert(l[q] == p[q]);
            } else {
                assert(l[p.len() as int] == traits[k]);
            }
        }
    }
}

/// The levels of a trait are its entries and only those, each once, by
/// increasing level: as many as the table holds for it, each of the
/// trait, every entry of the trait among them.
pub proof fn lemma_trait_levels(traits: Seq<TraitData>, check_id: Seq<char>, r: Seq<TraitData>)
    requires
        sorted_by_level(levels_of(traits, check_id), r),
    ensures
        r.len() == levels_of(traits, check_id).len(),
        forall|i: int| 0 <= i < r.len() ==> (#[trigger] r[i]).checkId@ == check_id,
        forall|k: int| 0 <= k < traits.len() && (#[trigger] traits[k]).checkId@ == check_id ==> r.contains(traits[k]),
        forall|i: int, j: int| 0 <= i < j < r.len() ==> r[i].level <= r[j].level,
{
    let items = levels_of(traits, check_id);
    lemma_levels_of(traits, check_id);
    let keys = items.map_values(|t: TraitData| level_key(t));
    let idx = choose|idx: Seq<usize>|
        is_permutation(idx, items.len()) && stably_sorted(keys, idx) && r.len() == items.len() && forall|i: int|
            0 <= i < r.len() ==> #[trigger] r[i] == items[idx[i] as int];
    assert forall|i: int| 0 <= i < r.len() implies (#[trigger] r[i]).checkId@ == check_id by {
        assert(r[i] == items[idx[i] as int]);
    }
    assert forall|k: int| 0 <= k < traits.len() && (#[trigger] traits[k]).checkId@ == check_id implies r.contains(
        traits[k],
    ) by {
        let q = choose|q: int| 0 <= q < items.len() && items[q] == traits[k];
        assert(crate::order::occurs(idx, q));
        let i = choose|i: int| 0 <= i < idx.len() && idx[i] == q;
        assert(r[i] == items[q]);
    }
    assert forall|i: int, j: int| 0 <= i < j < r.len() implies r[i].level <= r[j].level by {
        assert(r[i] == items[idx[i] as int]);
        assert(r[j] == items[idx[j] as int]);
        assert(crate::ranking::comes_before(keys, idx[i] as int, idx[j] as int));
        assert(keys[idx[i] as int] == level_key(items[idx[i] as int]));
        assert(keys[idx[j] as int] == level_key(items[idx[j] as int]));
    }
}

/// The heroes of a trait are exactly the heroes of the table that cost
/// something and list the trait among their races (or classes), in table
/// order.
pub proof fn lemma_heroes_for_trait(heroes: Seq<(String, HeroData)>, trait_id: Seq<char>, is_race: bool)
    ensures
        forall|i: int|
            0 <= i < heroes_with_trait(heroes, trait_id, is_race).len() ==> {
                let h = #[trigger] heroes_with_trait(heroes, trait_id, is_race)[i];
                &&& h.cost > 0
                &&& id_list(if is_race { h.species@ } else { h.hero_class@ }).contains(trait_id)
                &&& exists|k: int| 0 <= k < heroes.len() && heroes[k].1 == h
            },
        forall|k: int|
            0 <= k < heroes.len() && (#[trigger] heroes[k]).1.cost > 0 && id_list(
                if is_race { heroes[k].1.species@ } else { heroes[k].1.hero_class@ },
            ).contains(trait_id) ==> heroes_with_trait(heroes, trait_id, is_race).contains(heroes[k].1),
    decreases heroes.len(),
{
    if heroes.len() > 0 {
        let p = heroes_with_trait(heroes.drop_last(), trait_id, is_race);
        let l = heroes_with_trait(heroes, trait_id, is_race);
        lemma_heroes_for_trait(heroes.drop_last(), trait_id, is_race);
        assert forall|i: int| 0 <= i < l.len() implies {
            let h = #[trigger] l[i];
            &&& h.cost > 0
            &&& id_list(if is_race { h.species@ } else { h.hero_class@ }).contains(trait_id)
            &&& exists|k: int| 0 <= k < heroes.len() && heroes[k].1 == h
        } by {
            if i < p.len() {
                assert(l[i] == p[i]);
                let k = choose|k: int| 0 <= k < heroes.drop_last().len() && heroes.drop_last()[k].1 == p[i];
                assert(heroes[k] == heroes.drop_last()[k]);
            } else {
                assert(heroes[heroes.len() - 1].1 == l[i]);
            }
        }
        assert forall|k: int|
            0 <= k < heroes.len() && (#[trigger] heroes[k]).1.cost > 0 && id_list(
                if is_race { heroes[k].1.species@ } else { heroes[k].1.hero_class@ },
            ).contains(trait_id) implies l.contains(heroes[k].1) by {
            if k < heroes.len() - 1 {
                assert(heroes.drop_last()[k] == heroes[k]);
                let q = choose|q: int| 0 <= q < p.len() && p[q] == heroes[k].1;
                assert(l[q] == p[q]);
            } else {
                assert(l[p.len() as int] == heroes[k].1);
            }
        }
    }
}

impl GameDataLoader {
    /// Fills in the cost (from the price, 0 when unreadable), the star level
    /// (the first digit of the id, else 1) and the base key (`name_price`) of
    /// every hero.
    pub fn enrich_heroes(heroes: &mut Vec<(String, HeroData)>)
        ensures
            final(heroes)@.len() == old(heroes)@.len(),
            forall|i: int|
                0 <= i < final(heroes)@.len() ==> is_enriched(old(heroes)@[i], #[trigger] final(heroes)@[i]),
    {
        let ghost orig = heroes@;
        let mut out: Vec<(String, HeroData)> = Vec::new();
        let mut i: usize = 0;
        while i < heroes.len()
            invariant
                orig == heroes@,
                i <= orig.len(),
                out@.len() == i,
                forall|k: int| 0 <= k < i ==> is_enriched(orig[k], #[trigger] out@[k]),
            decreases orig.len() - i,
        {
            let h = &heroes[i].1;
            let cost = match parse_i32(h.price.as_str()) {
                Some(v) => v,
                None => 0,
            };
            let mut key = cat(h.name.as_str(), "_");
            push_str(&mut key, h.price.as_str());
            let e = HeroData {
                id: h.id.clone(),
                name: h.name.clone(),
                price: h.price.clone(),
                picture: h.picture.clone(),
                skillName: h.skillName.clone(),
                skillDesc: h.skillDesc.clone(),
                skillIcon: h.skillIcon.clone(),
                skillBriefValue: h.skillBriefValue.clone(),
                skillValueDesc: h.skillValueDesc.clone(),
                species: h.species.clone(),
                hero_class: h.hero_class.clone(),
                initHP: h.initHP.clone(),
                initAttackDamage: h.initAttackDamage.clone(),
                attackSpeed: h.attackSpeed.clone(),
                armor: h.armor.clone(),
                magicResist: h.magicResist.clone(),
                attackRange: h.attackRange.clone(),
                initMP: h.initMP.clone(),
                maxMP: h.maxMP.clone(),
                criticalStrikeChance: h.criticalStrikeChance.clone(),
                cost,
                base_key: key,
                star_level: star_level_of(h.id.as_str()),
            };
            out.push((heroes[i].0.clone(), e));
            i = i + 1;
        }
        *heroes = out;
    }
}

// ---------------------------------------------------------------------------
// Lookups
// ---------------------------------------------------------------------------

/// The levels of trait `check_id`, in the order of the trait list.
pub open spec fn levels_of(traits: Seq<TraitData>, check_id: Seq<char>) -> Seq<TraitData>
    decreases traits.len(),
{
    if traits.len() == 0 {
        seq![]
    } else {
        let rest = levels_of(traits.drop_last(), check_id);
        if traits.last().checkId@ == check_id {
            rest.push(traits.last())
        } else {
            rest
        }
    }
}

/// Sort key of a trait level: its level.
pub open spec fn level_key(t: TraitData) -> Key3 {
    (t.level as i64, 0, 0)
}

/// The trait levels a list of references points at.
pub open spec fn traits_of(s: Seq<&TraitData>) -> Seq<TraitData> {
    s.map_values(|t: &TraitData| *t)
}

/// The heroes a list of references points at.
pub open spec fn heroes_of(s: Seq<&HeroData>) -> Seq<HeroData> {
    s.map_values(|h: &HeroData| *h)
}

/// `sorted` is `items` ordered by level, equal levels in their original order.
pub open spec fn sorted_by_level(items: Seq<TraitData>, sorted: Seq<TraitData>) -> bool {
    exists|idx: Seq<usize>|
        is_permutation(idx, items.len()) && stably_sorted(items.map_values(|t: TraitData| level_key(t)), idx)
            && sorted.len() == items.len() && forall|i: int| 0 <= i < sorted.len() ==> #[trigger] sorted[i]
            == items[idx[i] as int]
}

/// The heroes of a table that cost something and carry trait `trait_id`
/// among their races (`is_race`) or classes, in table order.
pub open spec fn heroes_with_trait(heroes: Seq<(String, HeroData)>, trait_id: Seq<char>, is_race: bool) -> Seq<HeroData>
    decreases heroes.len(),
{
    if heroes.len() == 0 {
        seq![]
    } else {
        let rest = heroes_with_trait(heroes.drop_last(), trait_id, is_race);
        let h = heroes.last().1;
        let ids = if is_race { h.species@ } else { h.hero_class@ };
        if h.cost > 0 && id_list(ids).contains(trait_id) {
            rest.push(h)
        } else {
            rest
        }
    }
}

impl GameDataIndex {
    /// The hero with id `id`.
    pub fn hero(&self, id: &str) -> (r: Option<&HeroData>)
        ensures
            match r {
                Some(v) => lookup(keys_of(self.heroes_by_id@), id@) == Some(*v),
                None => lookup(keys_of(self.heroes_by_id@), id@) is None,
            },
    {
        match find_value(&self.heroes_by_id, id) {
            Some(h) => Some(h),
            None => None,
        }
    }

    /// The item with id `id`.
    pub fn equipment(&self, id: &str) -> (r: Option<&EquipmentData>)
        ensures
            match r {
                Some(v) => lookup(keys_of(self.equipment_by_id@), id@) == Some(*v),
                None => lookup(keys_of(self.equipment_by_id@), id@) is None,
            },
    {
        match find_value(&self.equipment_by_id, id) {
            Some(e) => Some(e),
            None => None,
        }
    }

    /// The augment with id `id`.
    pub fn hex(&self, id: &str) -> (r: Option<&HexData>)
        ensures
            match r {
                Some(v) => lookup(keys_of(self.hexes_by_id@), id@) == Some(*v),
                None => lookup(keys_of(self.hexes_by_id@), id@) is None,
            },
    {
        match find_value(&self.hexes_by_id, id) {
            Some(h) => Some(h),
            None => None,
        }
    }

    /// The portrait of the hero named `name`.
    pub fn hero_picture(&self, name: &str) -> (r: Option<&str>)
        ensures
            match lookup(keys_of(self.hero_pictures_by_name@), name@) {
                Some(p) => r is Some && r->0@ == p@,
                None => r is None,
            },
    {
        match find_value(&self.hero_pictures_by_name, name) {
            Some(p) => Some(p.as_str()),
            None => None,
        }
    }

    /// The name of race `species_id`, empty when unknown.
    pub fn race_name(&self, species_id: &str) -> (r: &str)
        ensures
            r@ == match lookup(keys_of(self.race_names@), species_id@) {
                Some(n) => n@,
                None => ""@,
            },
    {
        match find_value(&self.race_names, species_id) {
            Some(n) => n.as_str(),
            None => "",
        }
    }

    /// The name of class `class_id`, empty when unknown.
    pub fn job_name(&self, class_id: &str) -> (r: &str)
        ensures
            r@ == match lookup(keys_of(self.job_names@), class_id@) {
                Some(n) => n@,
                None => ""@,
            },
    {
        match find_value(&self.job_names, class_id) {
            Some(n) => n.as_str(),
            None => "",
        }
    }

    /// The name of item `equip_id`, the id itself when unknown.
    pub fn equip_name(&self, equip_id: &str) -> (r: String)
        ensures
            r@ == match lookup(keys_of(self.equip_names@), equip_id@) {
                Some(n) => n@,
                None => equip_id@,
            },
    {
        match find_value(&self.equip_names, equip_id) {
            Some(n) => n.clone(),
            None => owned(equip_id),
        }
    }

    /// Every level of trait `check_id`, by increasing level (equal levels in
    /// list order).
    pub fn trait_levels(&self, check_id: &str) -> (r: Vec<&TraitData>)
        ensures
            sorted_by_level(levels_of(self.traits@, check_id@), traits_of(r@)),
    {
        let ghost tv = self.traits@;
        let mut found: Vec<&TraitData> = Vec::new();
        let mut i: usize = 0;
        while i < self.traits.len()
            invariant
                tv == self.traits@,
                i <= tv.len(),
                traits_of(found@) == levels_of(tv.subrange(0, i as int), check_id@),
            decreases tv.len() - i,
        {
            assert(tv.subrange(0, i + 1).drop_last() =~= tv.subrange(0, i as int));
            let t = &self.traits[i];
            if str_eq(t.checkId.as_str(), check_id) {
                let ghost before = traits_of(found@);
                found.push(t);
                assert(traits_of(found@) =~= before.push(*t));
            } else {
                assert(traits_of(found@) == levels_of(tv.subrange(0, i + 1), check_id@));
            }
            i = i + 1;
        }
        assert(tv.subrange(0, i as int) =~= tv);
        let ghost items = traits_of(found@);
        let ghost kv = items.map_values(|t: TraitData| level_key(t));
        let mut keys: Vec<Key3> = Vec::new();
        let mut k: usize = 0;
        while k < found.len()
            invariant
                items == traits_of(found@),
                kv == items.map_values(|t: TraitData| level_key(t)),
                k <= items.len(),
                keys@ == kv.subrange(0, k as int),
            decreases items.len() - k,
        {
            let key: Key3 = (found[k].level as i64, 0, 0);
            keys.push(key);
            k = k + 1;
            assert(keys@ =~= kv.subrange(0, k as int));
        }
        assert(kv.subrange(0, k as int) =~= kv);
        let idx = stable_order(&keys);
        let mut r: Vec<&TraitData> = Vec::new();
        let mut t: usize = 0;
        while t < idx.len()
            invariant
                items == traits_of(found@),
                is_permutation(idx@, items.len()),
                t <= idx@.len(),
                r@.len() == t,
                forall|q: int| 0 <= q < t ==> #[trigger] traits_of(r@)[q] == items[idx@[q] as int],
            decreases idx@.len() - t,
        {
            let ghost before = traits_of(r@);
            r.push(found[idx[t]]);
            assert(traits_of(r@) =~= before.push(items[idx@[t as int] as int]));
            t = t + 1;
        }
        assert(sorted_by_level(items, traits_of(r@)));
        r
    }

    /// The heroes that cost something and carry trait `trait_id` among their
    /// races (`is_race`) or classes, in table order.
    pub fn heroes_for_trait(&self, trait_id: &str, is_race: bool) -> (r: Vec<&HeroData>)
        ensures
            heroes_of(r@) == heroes_with_trait(self.heroes_by_id@, trait_id@, is_race),
    {
        let ghost hv = self.heroes_by_id@;
        let mut r: Vec<&HeroData> = Vec::new();
        let mut i: usize = 0;
        while i < self.heroes_by_id.len()
            invariant
                hv == self.heroes_by_id@,
                i <= hv.len(),
                heroes_of(r@) == heroes_with_trait(hv.subrange(0, i as int), trait_id@, is_race),
            decreases hv.len() - i,
        {
            assert(hv.subrange(0, i + 1).drop_last() =~= hv.subrange(0, i as int));
            let h = &self.heroes_by_id[i].1;
            if h.cost > 0 {
                let ids = if is_race { split_ids(h.species.as_str()) } else { split_ids(h.hero_class.as_str()) };
                if list_has(&ids, trait_id) {
                    let ghost before = heroes_of(r@);
                    r.push(h);
                    assert(heroes_of(r@) =~= before.push(*h));
                }
            }
            i = i + 1;
        }
        assert(hv.subrange(0, i as int) =~= hv);
        r
    }
}

// ---------------------------------------------------------------------------
// Trait summaries
// ---------------------------------------------------------------------------

/// A trait summary with its texts taken by their views.
pub struct TraitSummaryView {
    pub id: Seq<char>,
    pub trait_id: Seq<char>,
    pub trait_type: Seq<char>,
    pub name: Seq<char>,
    pub count: i32,
    pub color: i32,
    pub level: i32,
    pub picture: Seq<char>,
}

impl View for RuleTraitSnapshot {
    type V = TraitSummaryView;

    open spec fn view(&self) -> TraitSummaryView {
        TraitSummaryView {
            id: self.id@,
            trait_id: self.trait_id@,
            trait_type: self.trait_type@,
            name: self.name@,
            count: self.count,
            color: self.color,
            level: self.level,
            picture: self.picture@,
        }
    }
}

pub open spec fn summary_views(s: Seq<RuleTraitSnapshot>) -> Seq<TraitSummaryView> {
    s.map_values(|x: RuleTraitSnapshot| x@)
}

/// A trait level belongs to a trait type: a race is type 0, a class type 1,
/// and any other type name takes every level.
pub open spec fn type_matches(trait_type: Seq<char>, t: TraitData) -> bool {
    if trait_type == "race"@ {
        t.trait_type == 0
    } else if trait_type == "job"@ {
        t.trait_type == 1
    } else {
        true
    }
}

/// The first level of trait `id` (of type `ty` when `typed`).
pub open spec fn first_level(traits: Seq<TraitData>, id: Seq<char>, ty: Seq<char>, typed: bool) -> Option<TraitData>
    decreases traits.len(),
{
    if traits.len() == 0 {
        None
    } else if traits[0].checkId@ == id && (!typed || type_matches(ty, traits[0])) {
        Some(traits[0])
    } else {
        first_level(traits.drop_first(), id, ty, typed)
    }
}

/// The trait level that describes an official count: the first level of its
/// trait and type, else the first level of its trait.
pub open spec fn contact_level(traits: Seq<TraitData>, c: TraitContactData) -> Option<TraitData> {
    match first_level(traits, c.id@, c.contact_type@, true) {
        Some(t) => Some(t),
        None => first_level(traits, c.id@, c.contact_type@, false),
    }
}

/// An official count that is active: a color or a count above zero.
pub open spec fn contact_active(c: TraitContactData) -> bool {
    c.color > 0 || c.count > 0
}

/// The summary of an official count described by trait level `t`.
pub open spec fn contact_summary(c: TraitContactData, t: TraitData) -> TraitSummaryView {
    TraitSummaryView {
        id: c.contact_type@ + "-"@ + c.id@,
        trait_id: c.id@,
        trait_type: c.contact_type@,
        name: t.name@,
        count: c.count,
        color: c.color,
        level: c.level,
        picture: t.picture@,
    }
}

/// The summaries of the active official counts whose trait is known, in
/// their order.
pub open spec fn contact_summaries(traits: Seq<TraitData>, contacts: Seq<TraitContactData>) -> Seq<TraitSummaryView>
    decreases contacts.len(),
{
    if contacts.len() == 0 {
        seq![]
    } else {
        let rest = contact_summaries(traits, contacts.drop_last());
        let c = contacts.last();
        if contact_active(c) {
            match contact_level(traits, c) {
                Some(t) => rest.push(contact_summary(c, t)),
                None => rest,
            }
        } else {
            rest
        }
    }
}

/// Sort key of a summary: color descending, count descending, name.
pub open spec fn summary_key(s: TraitSummaryView) -> NamedKey {
    (-(s.color as int) as i64, -(s.count as int) as i64, s.name)
}

/// `sorted` is `items` ordered by summary key, equal keys in their order.
pub open spec fn sorted_summaries(items: Seq<TraitSummaryView>, sorted: Seq<TraitSummaryView>) -> bool {
    exists|idx: Seq<usize>|
        is_permutation(idx, items.len()) && named_sorted(
            items.map_values(|x: TraitSummaryView| summary_key(x)),
            idx,
        ) && sorted.len() == items.len() && forall|i: int|
            0 <= i < sorted.len() ==> #[trigger] sorted[i] == items[idx[i] as int]
}

proof fn lemma_contact_summaries(traits: Seq<TraitData>, contacts: Seq<TraitContactData>)
    ensures
        forall|i: int|
            0 <= i < contact_summaries(traits, contacts).len() ==> exists|j: int|
                0 <= j < contacts.len() && contact_active(contacts[j]) && #[trigger] contact_summaries(
                    traits,
                    contacts,
                )[i].trait_id == contacts[j].id@ && contact_summaries(traits, contacts)[i].count == contacts[j].count
                    && contact_summaries(traits, contacts)[i].color == contacts[j].color && contact_summaries(
                    traits,
                    contacts,
                )[i].level == contacts[j].level,
    decreases contacts.len(),
{
    if contacts.len() > 0 {
        let p = contact_summaries(traits, contacts.drop_last());
        let l = contact_summaries(traits, contacts);
        lemma_contact_summaries(traits, contacts.drop_last());
        assert forall|i: int| 0 <= i < l.len() implies exists|j: int|
            0 <= j < contacts.len() && contact_active(contacts[j]) && #[trigger] l[i].trait_id == contacts[j].id@
                && l[i].count == contacts[j].count && l[i].color == contacts[j].color && l[i].level
                == contacts[j].level by {
            if i < p.len() {
                assert(l[i] == p[i]);
                let j = choose|j: int|
                    0 <= j < contacts.drop_last().len() && contact_active(contacts.drop_last()[j]) && #[trigger] p[i].trait_id
                        == contacts.drop_last()[j].id@ && p[i].count == contacts.drop_last()[j].count && p[i].color
                        == contacts.drop_last()[j].color && p[i].level == contacts.drop_last()[j].level;
                assert(contacts[j] == contacts.drop_last()[j]);
            } else {
                assert(contacts[contacts.len() - 1] == contacts.last());
            }
        }
    }
}

/// Trait summaries taken from official counts come by decreasing color, then
/// decreasing count, then name, and each is an active official count: its
/// trait, count, color and level.
pub proof fn lemma_contact_trait_summaries(
    traits: Seq<TraitData>,
    contacts: Seq<TraitContactData>,
    r: Seq<TraitSummaryView>,
)
    requires
        sorted_summaries(contact_summaries(traits, contacts), r),
    ensures
        forall|i: int, j: int|
            #![trigger r[i], r[j]]
            0 <= i < j < r.len() ==> r[i].color > r[j].color || (r[i].color == r[j].color && (r[i].count
                > r[j].count || (r[i].count == r[j].count && !crate::order::text_lt(r[j].name, r[i].name)))),
        forall|i: int|
            0 <= i < r.len() ==> exists|j: int|
                0 <= j < contacts.len() && contact_active(contacts[j]) && #[trigger] r[i].trait_id == contacts[j].id@
                    && r[i].count == contacts[j].count && r[i].color == contacts[j].color && r[i].level
                    == contacts[j].level,
{
    let items = contact_summaries(traits, contacts);
    lemma_contact_summaries(traits, contacts);
    let keys = items.map_values(|x: TraitSummaryView| summary_key(x));
    let idx = choose|idx: Seq<usize>|
        is_permutation(idx, items.len()) && named_sorted(keys, idx) && r.len() == items.len() && forall|i: int|
            0 <= i < r.len() ==> #[trigger] r[i] == items[idx[i] as int];
    assert forall|i: int, j: int| #![trigger r[i], r[j]] 0 <= i < j < r.len() implies r[i].color > r[j].color || (r[i].color
        == r[j].color && (r[i].count > r[j].count || (r[i].count == r[j].count && !crate::order::text_lt(
        r[j].name,
        r[i].name,
    )))) by {
        assert(r[i] == items[idx[i] as int]);
        assert(r[j] == items[idx[j] as int]);
        assert(crate::ranking::named_before(keys, idx[i] as int, idx[j] as int));
        assert(keys[idx[i] as int] == summary_key(items[idx[i] as int]));
        assert(keys[idx[j] as int] == summary_key(items[idx[j] as int]));
        if crate::ranking::named_lt(keys[idx[i] as int], keys[idx[j] as int]) && r[i].color == r[j].color
            && r[i].count == r[j].count {
            crate::order::lemma_text_lt_asymmetric(r[i].name, r[j].name);
        }
        if keys[idx[i] as int] == keys[idx[j] as int] {
            crate::order::lemma_text_lt_irreflexive(r[i].name);
        }
    }
    assert forall|i: int| 0 <= i < r.len() implies exists|j: int|
        0 <= j < contacts.len() && contact_active(contacts[j]) && #[trigger] r[i].trait_id == contacts[j].id@
            && r[i].count == contacts[j].count && r[i].color == contacts[j].color && r[i].level == contacts[j].level by {
        assert(r[i] == items[idx[i] as int]);
        assert(items[idx[i] as int].trait_id == items[idx[i] as int].trait_id);
    }
}

fn type_matches_exec(trait_type: &str, t: &TraitData) -> (b: bool)
    ensures
        b == type_matches(trait_type@, *t),
{
    if str_eq(trait_type, "race") {
        t.trait_type == 0
    } else if str_eq(trait_type, "job") {
        t.trait_type == 1
    } else {
        true
    }
}

fn find_first_level<'a>(traits: &'a Vec<TraitData>, id: &str, ty: &str, typed: bool) -> (r: Option<&'a TraitData>)
    ensures
        match r {
            Some(t) => first_level(traits@, id@, ty@, typed) == Some(*t),
            None => first_level(traits@, id@, ty@, typed) is None,
        },
{
    let ghost tv = traits@;
    let mut i: usize = 0;
    assert(tv.subrange(0, tv.len() as int) =~= tv);
    while i < traits.len()
        invariant
            tv == traits@,
            i <= tv.len(),
            first_level(tv, id@, ty@, typed) == first_level(tv.subrange(i as int, tv.len() as int), id@, ty@, typed),
        decreases tv.len() - i,
    {
        let ghost rest = tv.subrange(i as int, tv.len() as int);
        assert(rest[0] == tv[i as int]);
        assert(rest.drop_first() =~= tv.subrange(i + 1, tv.len() as int));
        let t = &traits[i];
        if str_eq(t.checkId.as_str(), id) && (!typed || type_matches_exec(ty, t)) {
            return Some(t);
        }
        i = i + 1;
    }
    None
}

fn clone_summary(s: &RuleTraitSnapshot) -> (r: RuleTraitSnapshot)
    ensures
        r@ == s@,
{
    RuleTraitSnapshot {
        id: s.id.clone(),
        trait_id: s.trait_id.clone(),
        trait_type: s.trait_type.clone(),
        name: s.name.clone(),
        count: s.count,
        color: s.color,
        level: s.level,
        picture: s.picture.clone(),
    }
}

fn summary_key_exec(s: &RuleTraitSnapshot) -> (k: (i64, i64, String))
    ensures
        (k.0, k.1, k.2@) == summary_key(s@),
{
    (-(s.color as i64), -(s.count as i64), s.name.clone())
}

/// The summaries ordered by color descending, count descending and name,
/// ties in their order.
fn sort_summaries(items: Vec<RuleTraitSnapshot>) -> (r: Vec<RuleTraitSnapshot>)
    ensures
        sorted_summaries(summary_views(items@), summary_views(r@)),
{
    let ghost iv = summary_views(items@);
    let ghost kv = iv.map_values(|x: TraitSummaryView| summary_key(x));
    let mut keys: Vec<(i64, i64, String)> = Vec::new();
    let mut i: usize = 0;
    while i < items.len()
        invariant
            iv == summary_views(items@),
            kv == iv.map_values(|x: TraitSummaryView| summary_key(x)),
            i <= items@.len(),
            named_views(keys@) == kv.subrange(0, i as int),
        decreases items@.len() - i,
    {
        let k = summary_key_exec(&items[i]);
        let ghost before = named_views(keys@);
        keys.push(k);
        proof {
            assert(iv[i as int] == items@[i as int]@);
            assert(named_views(keys@) =~= before.push(kv[i as int]));
        }
        i = i + 1;
        assert(named_views(keys@) =~= kv.subrange(0, i as int));
    }
    assert(kv.subrange(0, i as int) =~= kv);
    let idx = named_order(&keys);
    let mut r: Vec<RuleTraitSnapshot> = Vec::new();
    let mut t: usize = 0;
    while t < idx.len()
        invariant
            iv == summary_views(items@),
            is_permutation(idx@, items@.len()),
            t <= idx@.len(),
            r@.len() == t,
            forall|q: int| 0 <= q < t ==> (#[trigger] r@[q])@ == iv[idx@[q] as int],
        decreases idx@.len() - t,
    {
        let c = clone_summary(&items[idx[t]]);
        r.push(c);
        t = t + 1;
    }
    proof {
        let rv = summary_views(r@);
        assert forall|q: int| 0 <= q < rv.len() implies #[trigger] rv[q] == iv[idx@[q] as int] by {
            assert(rv[q] == r@[q]@);
        }
        assert(sorted_summaries(iv, rv));
    }
    r
}

impl GameDataIndex {
    /// The summaries of the active official counts, each described by its
    /// trait's level (counts whose trait is unknown are left out), sorted.
    fn summaries_from_contacts(&self, contacts: &[TraitContactData]) -> (r: Vec<RuleTraitSnapshot>)
        ensures
            sorted_summaries(contact_summaries(self.traits@, contacts@), summary_views(r@)),
    {
        let ghost cv = contacts@;
        let mut out: Vec<RuleTraitSnapshot> = Vec::new();
        let mut i: usize = 0;
        while i < contacts.len()
            invariant
                cv == contacts@,
                i <= cv.len(),
                summary_views(out@) == contact_summaries(self.traits@, cv.subrange(0, i as int)),
            decreases cv.len() - i,
        {
            assert(cv.subrange(0, i + 1).drop_last() =~= cv.subrange(0, i as int));
            let c = &contacts[i];
            if c.color > 0 || c.count > 0 {
                let typed = find_first_level(&self.traits, c.id.as_str(), c.contact_type.as_str(), true);
                let matched = match typed {
                    Some(t) => Some(t),
                    None => find_first_level(&self.traits, c.id.as_str(), c.contact_type.as_str(), false),
                };
                match matched {
                    Some(t) => {
                        let mut id = cat(c.contact_type.as_str(), "-");
                        push_str(&mut id, c.id.as_str());
                        let snap = RuleTraitSnapshot {
                            id,
                            trait_id: c.id.clone(),
                            trait_type: c.contact_type.clone(),
                            name: t.name.clone(),
                            count: c.count,
                            color: c.color,
                            level: c.level,
                            picture: t.picture.clone(),
                        };
                        let ghost before = summary_views(out@);
                        out.push(snap);
                        assert(summary_views(out@) =~= before.push(snap@));
                    },
                    None => {},
                }
            }
            i = i + 1;
        }
        assert(cv.subrange(0, i as int) =~= cv);
        sort_summaries(out)
    }
}

// ---------------------------------------------------------------------------
// Trait summaries counted from the pieces
// ---------------------------------------------------------------------------

/// A trait of a hero: whether it is a race, and its id.
pub type TraitKey = (bool, Seq<char>);

pub open spec fn tagged(is_race: bool, ids: Seq<Seq<char>>) -> Seq<TraitKey> {
    ids.map_values(|id: Seq<char>| (is_race, id))
}

pub open spec fn key_views(v: Seq<(bool, String)>) -> Seq<TraitKey> {
    v.map_values(|e: (bool, String)| (e.0, e.1@))
}

/// The traits that the hero pieces of a lineup carry, piece by piece: the
/// races of each known hero, then its classes.
pub open spec fn piece_traits(heroes: Seq<(String, HeroData)>, pieces: Seq<LineupPieceData>) -> Seq<TraitKey>
    decreases pieces.len(),
{
    if pieces.len() == 0 {
        seq![]
    } else {
        let rest = piece_traits(heroes, pieces.drop_last());
        let p = pieces.last();
        if p.chess_type@ == "hero"@ {
            match lookup(keys_of(heroes), p.hero_id@) {
                Some(h) => rest + tagged(true, id_list(h.species@)) + tagged(false, id_list(h.hero_class@)),
                None => rest,
            }
        } else {
            rest
        }
    }
}

/// How often `x` occurs in `s`.
pub open spec fn count_in(s: Seq<TraitKey>, x: TraitKey) -> int
    decreases s.len(),
{
    if s.len() == 0 {
        0
    } else {
        count_in(s.drop_last(), x) + if s.last() == x {
            1int
        } else {
            0int
        }
    }
}

/// The distinct elements of `s` in the order of their first occurrence.
pub open spec fn first_occurrences(s: Seq<TraitKey>) -> Seq<TraitKey>
    decreases s.len(),
{
    if s.len() == 0 {
        seq![]
    } else {
        let r = first_occurrences(s.drop_last());
        if r.contains(s.last()) {
            r
        } else {
            r.push(s.last())
        }
    }
}

/// No trait is counted past the `i32` range.
pub open spec fn counts_fit(s: Seq<TraitKey>) -> bool {
    forall|x: TraitKey| #[trigger] count_in(s, x) <= i32::MAX
}

pub open spec fn kind_text(is_race: bool) -> Seq<char> {
    if is_race {
        "race"@
    } else {
        "job"@
    }
}

/// The count a trait level asks for; a level whose count cannot be read is
/// out of reach.
pub open spec fn required_count(t: TraitData) -> int {
    match parse_i32_spec(t.num@) {
        Some(v) => v as int,
        None => i32::MAX as int,
    }
}

/// The highest level of trait `id` and type `ty` that `count` pieces reach,
/// the last of equal levels.
pub open spec fn reached_level(traits: Seq<TraitData>, id: Seq<char>, ty: Seq<char>, count: int) -> Option<TraitData>
    decreases traits.len(),
{
    if traits.len() == 0 {
        None
    } else {
        let best = reached_level(traits.drop_last(), id, ty, count);
        let t = traits.last();
        if t.checkId@ == id && type_matches(ty, t) && count >= required_count(t) {
            match best {
                Some(b) => if t.level >= b.level {
                    Some(t)
                } else {
                    Some(b)
                },
                None => Some(t),
            }
        } else {
            best
        }
    }
}

/// The summary of trait `x` carried `count` times, when it reaches a level.
pub open spec fn counted_summary(traits: Seq<TraitData>, x: TraitKey, count: int) -> Option<TraitSummaryView> {
    let ty = kind_text(x.0);
    match reached_level(traits, x.1, ty, count) {
        Some(t) => Some(
            TraitSummaryView {
                id: ty + ":"@ + x.1,
                trait_id: x.1,
                trait_type: ty,
                name: t.name@,
                count: count as i32,
                color: match parse_i32_spec(t.color@) {
                    Some(v) => v,
                    None => 0,
                },
                level: t.level,
                picture: t.picture@,
            },
        ),
        None => None,
    }
}

/// The summaries of the traits `keys`, counted in `carried`.
pub open spec fn counted_summaries(traits: Seq<TraitData>, keys: Seq<TraitKey>, carried: Seq<TraitKey>) -> Seq<
    TraitSummaryView,
>
    decreases keys.len(),
{
    if keys.len() == 0 {
        seq![]
    } else {
        let rest = counted_summaries(traits, keys.drop_last(), carried);
        match counted_summary(traits, keys.last(), count_in(carried, keys.last())) {
            Some(s) => rest.push(s),
            None => rest,
        }
    }
}

/// The summaries of the traits a lineup's pieces carry, each trait taken
/// once, in the order it first occurs.
pub open spec fn piece_summaries(traits: Seq<TraitData>, heroes: Seq<(String, HeroData)>, pieces: Seq<LineupPieceData>) -> Seq<
    TraitSummaryView,
> {
    let carried = piece_traits(heroes, pieces);
    counted_summaries(traits, first_occurrences(carried), carried)
}

proof fn lemma_count_prefix(s: Seq<TraitKey>, i: int, x: TraitKey)
    requires
        0 <= i <= s.len(),
    ensures
        count_in(s.subrange(0, i), x) <= count_in(s, x),
    decreases s.len() - i,
{
    if i == s.len() {
        assert(s.subrange(0, i) =~= s);
    } else {
        lemma_count_prefix(s, i + 1, x);
        assert(s.subrange(0, i + 1).drop_last() =~= s.subrange(0, i));
    }
}

fn append_tagged(out: &mut Vec<(bool, String)>, is_race: bool, ids: &Vec<String>)
    ensures
        key_views(final(out)@) == key_views(old(out)@) + tagged(is_race, views(ids@)),
{
    let ghost start = key_views(out@);
    let mut j: usize = 0;
    while j < ids.len()
        invariant
            j <= ids@.len(),
            key_views(out@) == start + tagged(is_race, views(ids@).subrange(0, j as int)),
        decreases ids@.len() - j,
    {
        let ghost before = key_views(out@);
        out.push((is_race, ids[j].clone()));
        assert(key_views(out@) =~= before.push((is_race, ids@[j as int]@)));
        assert(tagged(is_race, views(ids@).subrange(0, j + 1)) =~= tagged(is_race, views(ids@).subrange(0, j as int)).push(
            (is_race, ids@[j as int]@),
        ));
        j = j + 1;
    }
    assert(views(ids@).subrange(0, j as int) =~= views(ids@));
}

/// Position of `x` among `keys`.
fn key_position(keys: &Vec<(bool, String)>, x: &(bool, String)) -> (r: Option<usize>)
    ensures
        match r {
            Some(k) => k < keys@.len() && key_views(keys@)[k as int] == (x.0, x.1@),
            None => !key_views(keys@).contains((x.0, x.1@)),
        },
{
    let mut k: usize = 0;
    while k < keys.len()
        invariant
            k <= keys@.len(),
            forall|j: int| 0 <= j < k ==> key_views(keys@)[j] != (x.0, x.1@),
        decreases keys@.len() - k,
    {
        if keys[k].0 == x.0 && str_eq(keys[k].1.as_str(), x.1.as_str()) {
            return Some(k);
        }
        k = k + 1;
    }
    None
}

/// The distinct traits of `carried` in order of first occurrence, with how
/// often each occurs.
fn tally(carried: &Vec<(bool, String)>) -> (r: (Vec<(bool, String)>, Vec<i32>))
    requires
        counts_fit(key_views(carried@)),
    ensures
        key_views(r.0@) == first_occurrences(key_views(carried@)),
        r.1@.len() == r.0@.len(),
        forall|k: int| 0 <= k < r.1@.len() ==> r.1@[k] == count_in(key_views(carried@), #[trigger] key_views(r.0@)[k]),
{
    let ghost cv = key_views(carried@);
    let mut keys: Vec<(bool, String)> = Vec::new();
    let mut counts: Vec<i32> = Vec::new();
    let mut i: usize = 0;
    while i < carried.len()
        invariant
            cv == key_views(carried@),
            counts_fit(cv),
            i <= cv.len(),
            key_views(keys@) == first_occurrences(cv.subrange(0, i as int)),
            counts@.len() == keys@.len(),
            forall|k: int|
                0 <= k < counts@.len() ==> counts@[k] == count_in(cv.subrange(0, i as int), #[trigger] key_views(keys@)[k]),
            forall|a: int, b: int|
                0 <= a < b < keys@.len() ==> key_views(keys@)[a] != key_views(keys@)[b],
        decreases cv.len() - i,
    {
        let ghost pre = cv.subrange(0, i as int);
        let ghost nxt = cv.subrange(0, i + 1);
        let ghost x = cv[i as int];
        assert(nxt.drop_last() =~= pre);
        assert(nxt.last() == x);
        assert(x == (carried@[i as int].0, carried@[i as int].1@));
        let ghost kv0 = key_views(keys@);
        match key_position(&keys, &carried[i]) {
            Some(k) => {
                proof {
                    lemma_count_prefix(cv, i + 1, x);
                    assert(count_in(cv, x) <= i32::MAX);
                    assert(kv0.contains(x));
                }
                let c = counts[k];
                counts.set(k, c + 1);
                proof {
                    assert forall|q: int| 0 <= q < counts@.len() implies counts@[q] == count_in(
                        nxt,
                        #[trigger] key_views(keys@)[q],
                    ) by {
                        if q != k {
                            assert(kv0[q] != kv0[k as int]);
                        }
                    }
                }
            },
            None => {
                keys.push((carried[i].0, carried[i].1.clone()));
                counts.push(1);
                proof {
                    assert(key_views(keys@) =~= kv0.push(x));
                    assert(count_in(pre, x) == 0) by {
                        lemma_count_zero(pre, x);
                    }
                    assert forall|q: int| 0 <= q < counts@.len() implies counts@[q] == count_in(
                        nxt,
                        #[trigger] key_views(keys@)[q],
                    ) by {
                        if q < kv0.len() {
                            assert(key_views(keys@)[q] == kv0[q]);
                            assert(kv0[q] != x);
                        }
                    }
                    assert forall|a: int, b: int| 0 <= a < b < keys@.len() implies key_views(keys@)[a]
                        != key_views(keys@)[b] by {
                        if b == kv0.len() {
                            assert(key_views(keys@)[a] == kv0[a]);
                        }
                    }
                }
            },
        }
        i = i + 1;
    }
    assert(cv.subrange(0, i as int) =~= cv);
    (keys, counts)
}

proof fn lemma_count_zero(s: Seq<TraitKey>, x: TraitKey)
    requires
        !first_occurrences(s).contains(x),
    ensures
        count_in(s, x) == 0,
    decreases s.len(),
{
    if s.len() > 0 {
        let r = first_occurrences(s.drop_last());
        if r.contains(x) {
            assert(first_occurrences(s).contains(x)) by {
                let j = choose|j: int| 0 <= j < r.len() && r[j] == x;
                if !r.contains(s.last()) {
                    assert(r.push(s.last())[j] == x);
                }
            }
        }
        lemma_count_zero(s.drop_last(), x);
        if s.last() == x {
            assert(first_occurrences(s).contains(x)) by {
                if r.contains(s.last()) {
                } else {
                    assert(r.push(s.last())[r.len() as int] == x);
                }
            }
        }
    }
}

fn find_reached_level<'a>(traits: &'a Vec<TraitData>, id: &str, ty: &str, count: i32) -> (r: Option<&'a TraitData>)
    ensures
        match r {
            Some(t) => reached_level(traits@, id@, ty@, count as int) == Some(*t),
            None => reached_level(traits@, id@, ty@, count as int) is None,
        },
{
    let ghost tv = traits@;
    let mut best: Option<&TraitData> = None;
    let mut i: usize = 0;
    while i < traits.len()
        invariant
            tv == traits@,
            i <= tv.len(),
            match best {
                Some(b) => reached_level(tv.subrange(0, i as int), id@, ty@, count as int) == Some(*b),
                None => reached_level(tv.subrange(0, i as int), id@, ty@, count as int) is None,
            },
        decreases tv.len() - i,
    {
        assert(tv.subrange(0, i + 1).drop_last() =~= tv.subrange(0, i as int));
        let t = &traits[i];
        let required = match parse_i32(t.num.as_str()) {
            Some(v) => v,
            None => i32::MAX,
        };
        if str_eq(t.checkId.as_str(), id) && type_matches_exec(ty, t) && count >= required {
            best = match best {
                Some(b) => if t.level >= b.level {
                    Some(t)
                } else {
                    Some(b)
                },
                None => Some(t),
            };
        }
        i = i + 1;
    }
    assert(tv.subrange(0, i as int) =~= tv);
    best
}

impl GameDataIndex {
    /// The traits that the hero pieces carry, piece by piece.
    fn carried_traits(&self, pieces: &[LineupPieceData]) -> (r: Vec<(bool, String)>)
        ensures
            key_views(r@) == piece_traits(self.heroes_by_id@, pieces@),
    {
        let ghost pv = pieces@;
        let mut out: Vec<(bool, String)> = Vec::new();
        let mut i: usize = 0;
        while i < pieces.len()
            invariant
                pv == pieces@,
                i <= pv.len(),
                key_views(out@) == piece_traits(self.heroes_by_id@, pv.subrange(0, i as int)),
            decreases pv.len() - i,
        {
            assert(pv.subrange(0, i + 1).drop_last() =~= pv.subrange(0, i as int));
            let piece = &pieces[i];
            if str_eq(piece.chess_type.as_str(), "hero") {
                match self.hero(piece.hero_id.as_str()) {
                    Some(h) => {
                        let races = split_ids(h.species.as_str());
                        append_tagged(&mut out, true, &races);
                        let classes = split_ids(h.hero_class.as_str());
                        append_tagged(&mut out, false, &classes);
                    },
                    None => {},
                }
            }
            i = i + 1;
        }
        assert(pv.subrange(0, i as int) =~= pv);
        out
    }

    /// Summaries counted from the pieces: each trait they carry, at the
    /// highest level its count reaches (traits that reach none are left
    /// out), sorted.
    fn summaries_from_pieces(&self, pieces: &[LineupPieceData]) -> (r: Vec<RuleTraitSnapshot>)
        requires
            counts_fit(piece_traits(self.heroes_by_id@, pieces@)),
        ensures
            sorted_summaries(piece_summaries(self.traits@, self.heroes_by_id@, pieces@), summary_views(r@)),
    {
        let carried = self.carried_traits(pieces);
        let ghost cv = key_views(carried@);
        let (keys, counts) = tally(&carried);
        let ghost kv = key_views(keys@);
        let mut out: Vec<RuleTraitSnapshot> = Vec::new();
        let mut k: usize = 0;
        while k < keys.len()
            invariant
                cv == key_views(carried@),
                kv == key_views(keys@),
                counts@.len() == keys@.len(),
                forall|q: int| 0 <= q < counts@.len() ==> counts@[q] == count_in(cv, #[trigger] kv[q]),
                k <= kv.len(),
                summary_views(out@) == counted_summaries(self.traits@, kv.subrange(0, k as int), cv),
            decreases kv.len() - k,
        {
            assert(kv.subrange(0, k + 1).drop_last() =~= kv.subrange(0, k as int));
            assert(kv[k as int] == (keys@[k as int].0, keys@[k as int].1@));
            let is_race = keys[k].0;
            let ty: &str = if is_race {
                "race"
            } else {
                "job"
            };
            let count = counts[k];
            match find_reached_level(&self.traits, keys[k].1.as_str(), ty, count) {
                Some(t) => {
                    let mut id = cat(ty, ":");
                    push_str(&mut id, keys[k].1.as_str());
                    let color = match parse_i32(t.color.as_str()) {
                        Some(v) => v,
                        None => 0,
                    };
                    let snap = RuleTraitSnapshot {
                        id,
                        trait_id: keys[k].1.clone(),
                        trait_type: owned(ty),
                        name: t.name.clone(),
                        count,
                        color,
                        level: t.level,
                        picture: t.picture.clone(),
                    };
                    let ghost before = summary_views(out@);
                    out.push(snap);
                    assert(summary_views(out@) =~= before.push(snap@));
                },
                None => {},
            }
            k = k + 1;
        }
        assert(kv.subrange(0, k as int) =~= kv);
        sort_summaries(out)
    }

    /// The trait summaries of a lineup: from its official counts when one of
    /// them is active, else counted from its pieces.
    pub fn trait_summaries(&self, pieces: &[LineupPieceData], official_contacts: &[TraitContactData]) -> (r: Vec<
        RuleTraitSnapshot,
    >)
        requires
            (exists|j: int| 0 <= j < official_contacts@.len() && contact_active(#[trigger] official_contacts@[j]))
                || counts_fit(piece_traits(self.heroes_by_id@, pieces@)),
        ensures
            (exists|j: int| 0 <= j < official_contacts@.len() && contact_active(#[trigger] official_contacts@[j]))
                ==> sorted_summaries(contact_summaries(self.traits@, official_contacts@), summary_views(r@)),
            !(exists|j: int| 0 <= j < official_contacts@.len() && contact_active(#[trigger] official_contacts@[j]))
                ==> sorted_summaries(piece_summaries(self.traits@, self.heroes_by_id@, pieces@), summary_views(r@)),
    {
        let mut any = false;
        let mut j: usize = 0;
        while j < official_contacts.len()
            invariant
                j <= official_contacts@.len(),
                any == exists|q: int| 0 <= q < j && contact_active(#[trigger] official_contacts@[q]),
            decreases official_contacts@.len() - j,
        {
            let c = &official_contacts[j];
            if c.color > 0 || c.count > 0 {
                assert(contact_active(official_contacts@[j as int]));
                any = true;
            }
            j = j + 1;
        }
        if any {
            self.summaries_from_contacts(official_contacts)
        } else {
            self.summaries_from_pieces(pieces)
        }
    }
}

// ---------------------------------------------------------------------------
// Derived fields of loaded data
// ---------------------------------------------------------------------------

/// White space as Unicode defines it (the property `White_Space`).
pub open spec fn is_white_space(c: char) -> bool {
    ||| '\u{9}' <= c <= '\u{d}'
    ||| c == ' ' || c == '\u{85}' || c == '\u{a0}' || c == '\u{1680}'
    ||| '\u{2000}' <= c <= '\u{200a}'
    ||| c == '\u{2028}' || c == '\u{2029}' || c == '\u{202f}' || c == '\u{205f}' || c == '\u{3000}'
}

/// The text without its leading white space.
pub open spec fn trim_start(s: Seq<char>) -> Seq<char>
    decreases s.len(),
{
    if s.len() > 0 && is_white_space(s[0]) {
        trim_start(s.drop_first())
    } else {
        s
    }
}

/// The text without its trailing white space.
pub open spec fn trim_end(s: Seq<char>) -> Seq<char>
    decreases s.len(),
{
    if s.len() > 0 && is_white_space(s.last()) {
        trim_end(s.drop_last())
    } else {
        s
    }
}

/// The text without its leading and trailing white space.
pub open spec fn trimmed(s: Seq<char>) -> Seq<char> {
    trim_end(trim_start(s))
}

fn white_space(c: char) -> (b: bool)
    ensures
        b == is_white_space(c),
{
    ('\u{9}' <= c && c <= '\u{d}') || c == ' ' || c == '\u{85}' || c == '\u{a0}' || c == '\u{1680}' || ('\u{2000}'
        <= c && c <= '\u{200a}') || c == '\u{2028}' || c == '\u{2029}' || c == '\u{202f}' || c == '\u{205f}' || c
        == '\u{3000}'
}

/// The text without its leading and trailing white space.
pub(crate) fn trim_text(s: &str) -> (r: &str)
    ensures
        r@ == trimmed(s@),
{
    let n = s.unicode_len();
    let mut i: usize = 0;
    assert(s@.subrange(0, n as int) =~= s@);
    while i < n && white_space(s.get_char(i))
        invariant
            n == s@.len(),
            i <= n,
            trim_start(s@) == trim_start(s@.subrange(i as int, n as int)),
        decreases n - i,
    {
        assert(s@.subrange(i as int, n as int).drop_first() =~= s@.subrange(i + 1, n as int));
        i = i + 1;
    }
    let ghost rest = s@.subrange(i as int, n as int);
    assert(trim_start(rest) == rest);
    let mut j: usize = n;
    while j > i && white_space(s.get_char(j - 1))
        invariant
            n == s@.len(),
            i <= j <= n,
            rest == s@.subrange(i as int, n as int),
            trim_end(rest) == trim_end(s@.subrange(i as int, j as int)),
        decreases j,
    {
        assert(s@.subrange(i as int, j as int).drop_last() =~= s@.subrange(i as int, j - 1));
        j = j - 1;
    }
    s.substring_char(i, j)
}

/// The activation counts of a `|`-separated list: each piece, trimmed, that
/// reads as a number.
pub open spec fn counts_of(pieces: Seq<Seq<char>>) -> Seq<i32>
    decreases pieces.len(),
{
    if pieces.len() == 0 {
        seq![]
    } else {
        let rest = counts_of(pieces.drop_last());
        match parse_i32_spec(trimmed(pieces.last())) {
            Some(v) => rest.push(v),
            None => rest,
        }
    }
}

/// `after` is `before` with its activation counts read from its count list.
pub open spec fn has_thresholds(before: TraitData, after: TraitData) -> bool {
    &&& after == (TraitData { thresholds: after.thresholds, ..before })
    &&& after.thresholds@ == counts_of(split_on(before.numList@, '|'))
}

/// `after` is `before` marked as a component (`基础装备`) or a completed
/// item (`成型装备`) by its type.
pub open spec fn is_classified(before: (String, EquipmentData), after: (String, EquipmentData)) -> bool {
    &&& after.0 == before.0
    &&& after.1 == (EquipmentData {
        is_component: before.1.equip_type@ == "基础装备"@,
        is_completed: before.1.equip_type@ == "成型装备"@,
        ..before.1
    })
}

/// The portraits of the heroes that have a name and a portrait, by name, in
/// table order.
pub open spec fn pictures_of(heroes: Seq<(String, HeroData)>) -> Seq<(Seq<char>, Seq<char>)>
    decreases heroes.len(),
{
    if heroes.len() == 0 {
        seq![]
    } else {
        let rest = pictures_of(heroes.drop_last());
        let h = heroes.last().1;
        if h.name@.len() > 0 && h.picture@.len() > 0 {
            rest.push((h.name@, h.picture@))
        } else {
            rest
        }
    }
}

fn with_thresholds(t: &TraitData, thresholds: Vec<i32>) -> (r: TraitData)
    ensures
        r == (TraitData { thresholds, ..*t }),
{
    TraitData {
        id: t.id.clone(),
        name: t.name.clone(),
        checkId: t.checkId.clone(),
        trait_type: t.trait_type,
        color: t.color.clone(),
        level: t.level,
        maxLevel: t.maxLevel.clone(),
        num: t.num.clone(),
        numList: t.numList.clone(),
        desc: t.desc.clone(),
        prefix: t.prefix.clone(),
        realDesc: t.realDesc.clone(),
        picture: t.picture.clone(),
        values: t.values.clone(),
        thresholds,
    }
}

fn read_counts(num_list: &str) -> (r: Vec<i32>)
    ensures
        r@ == counts_of(split_on(num_list@, '|')),
{
    let pieces = split_text(num_list, '|');
    let ghost pv = views(pieces@);
    let mut r: Vec<i32> = Vec::new();
    let mut i: usize = 0;
    while i < pieces.len()
        invariant
            pv == views(pieces@),
            pv == split_on(num_list@, '|'),
            i <= pv.len(),
            r@ == counts_of(pv.subrange(0, i as int)),
        decreases pv.len() - i,
    {
        assert(pv.subrange(0, i + 1).drop_last() =~= pv.subrange(0, i as int));
        assert(pv[i as int] == pieces@[i as int]@);
        match parse_i32(trim_text(pieces[i].as_str())) {
            Some(v) => r.push(v),
            None => {},
        }
        i = i + 1;
    }
    assert(pv.subrange(0, i as int) =~= pv);
    r
}

impl GameDataLoader {
    /// Reads the activation counts of every trait level from its count list.
    pub fn fill_thresholds(traits: &mut Vec<TraitData>)
        ensures
            final(traits)@.len() == old(traits)@.len(),
            forall|i: int|
                0 <= i < final(traits)@.len() ==> has_thresholds(old(traits)@[i], #[trigger] final(traits)@[i]),
    {
        let ghost orig = traits@;
        let mut out: Vec<TraitData> = Vec::new();
        let mut i: usize = 0;
        while i < traits.len()
            invariant
                orig == traits@,
                i <= orig.len(),
                out@.len() == i,
                forall|k: int| 0 <= k < i ==> has_thresholds(orig[k], #[trigger] out@[k]),
            decreases orig.len() - i,
        {
            let counts = read_counts(traits[i].numList.as_str());
            out.push(with_thresholds(&traits[i], counts));
            i = i + 1;
        }
        *traits = out;
    }

    /// Marks each item as a component or a completed item by its type.
    pub fn classify_equipment(equipment: &mut Vec<(String, EquipmentData)>)
        ensures
            final(equipment)@.len() == old(equipment)@.len(),
            forall|i: int|
                0 <= i < final(equipment)@.len() ==> is_classified(old(equipment)@[i], #[trigger] final(equipment)@[i]),
    {
        let ghost orig = equipment@;
        let mut out: Vec<(String, EquipmentData)> = Vec::new();
        let mut i: usize = 0;
        while i < equipment.len()
            invariant
                orig == equipment@,
                i <= orig.len(),
                out@.len() == i,
                forall|k: int| 0 <= k < i ==> is_classified(orig[k], #[trigger] out@[k]),
            decreases orig.len() - i,
        {
            let e = &equipment[i].1;
            let c = EquipmentData {
                id: e.id.clone(),
                name: e.name.clone(),
                equip_type: e.equip_type.clone(),
                picture: e.picture.clone(),
                basicDesc: e.basicDesc.clone(),
                desc: e.desc.clone(),
                synthesis1: e.synthesis1.clone(),
                synthesis2: e.synthesis2.clone(),
                icon: e.icon.clone(),
                is_component: str_eq(e.equip_type.as_str(), "基础装备"),
                is_completed: str_eq(e.equip_type.as_str(), "成型装备"),
            };
            out.push((equipment[i].0.clone(), c));
            i = i + 1;
        }
        *equipment = out;
    }

    /// The portraits of the heroes that have a name and a portrait, by name.
    pub fn hero_pictures(heroes: &Vec<(String, HeroData)>) -> (r: Vec<(String, String)>)
        ensures
            table_view(r@) == pictures_of(heroes@),
    {
        let ghost hv = heroes@;
        let mut r: Vec<(String, String)> = Vec::new();
        let mut i: usize = 0;
        while i < heroes.len()
            invariant
                hv == heroes@,
                i <= hv.len(),
                table_view(r@) == pictures_of(hv.subrange(0, i as int)),
            decreases hv.len() - i,
        {
            assert(hv.subrange(0, i + 1).drop_last() =~= hv.subrange(0, i as int));
            let h = &heroes[i].1;
            if !h.name.as_str().is_empty() && !h.picture.as_str().is_empty() {
                let ghost before = table_view(r@);
                r.push((h.name.clone(), h.picture.clone()));
                assert(table_view(r@) =~= before.push((h.name@, h.picture@)));
            }
            i = i + 1;
        }
        assert(hv.subrange(0, i as int) =~= hv);
        r
    }
}

impl GameDataIndex {
    /// Builds the index of a mode from its loaded data: heroes enriched,
    /// items classified, trait counts read, and the hero portraits gathered
    /// by name.
    pub fn from_data(
        mode: &str,
        heroes: Vec<(String, HeroData)>,
        equipment: Vec<(String, EquipmentData)>,
        hexes: Vec<(String, HexData)>,
        traits: Vec<TraitData>,
        race_names: Vec<(String, String)>,
        job_names: Vec<(String, String)>,
        equip_names: Vec<(String, String)>,
        missions: Vec<(String, MissionData)>,
        gods: Vec<GodData>,
    ) -> (r: Self)
        ensures
            r.mode@ == mode@,
            r.heroes_by_id@.len() == heroes@.len(),
            forall|i: int| 0 <= i < heroes@.len() ==> is_enriched(heroes@[i], #[trigger] r.heroes_by_id@[i]),
            r.equipment_by_id@.len() == equipment@.len(),
            forall|i: int| 0 <= i < equipment@.len() ==> is_classified(equipment@[i], #[trigger] r.equipment_by_id@[i]),
            r.traits@.len() == traits@.len(),
            forall|i: int| 0 <= i < traits@.len() ==> has_thresholds(traits@[i], #[trigger] r.traits@[i]),
            r.hexes_by_id == hexes,
            r.race_names == race_names,
            r.job_names == job_names,
            r.equip_names == equip_names,
            table_view(r.hero_pictures_by_name@) == pictures_of(r.heroes_by_id@),
            r.missions_by_id == missions,
            r.gods == gods,
    {
        let mut heroes = heroes;
        GameDataLoader::enrich_heroes(&mut heroes);
        let mut equipment = equipment;
        GameDataLoader::classify_equipment(&mut equipment);
        let mut traits = traits;
        GameDataLoader::fill_thresholds(&mut traits);
        let pictures = GameDataLoader::hero_pictures(&heroes);
        GameDataIndex {
            mode: owned(mode),
            heroes_by_id: heroes,
            equipment_by_id: equipment,
            hexes_by_id: hexes,
            traits,
            race_names,
            job_names,
            equip_names,
            hero_pictures_by_name: pictures,
            missions_by_id: missions,
            gods,
        }
    }
}

/// An enriched hero always has a base key, and a star level between 0 and
/// 9 that is at least 1 unless its id starts with `0`.
pub proof fn lemma_enriched_fields(before: (String, HeroData), after: (String, HeroData))
    requires
        is_enriched(before, after),
    ensures
        after.1.base_key@.len() > 0,
        0 <= after.1.star_level <= 9,
        before.1.id@.len() == 0 || before.1.id@[0] != '0' ==> after.1.star_level >= 1,
{
    reveal_strlit("_");
    assert(after.1.base_key@[before.1.name@.len() as int] == '_');
}

} // verus!
