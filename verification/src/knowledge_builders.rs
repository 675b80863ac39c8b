//! Builders of the knowledge base: hero capabilities, item value profiles,
//! augment and trait effect profiles, all read from game data with keyword
//! tables.
use vstd::prelude::*;
use crate::data_types::{EquipmentData, HeroData, HexData, TraitData};
use crate::keyed::{first_key, lemma_lookup_absent, lemma_lookup_first, lookup};
use crate::knowledge_types::{
    default_keywords, kw_table, AugmentEffectProfile, ChampionCapability, ChampionRole, ItemPreferences,
    ItemStat, ItemValueProfile, KeywordTable, KeywordsView, KnowledgeKeywords, PowerSpike, TraitEffectProfile,
};
use crate::num::clamp;
use crate::text::{
    cat, chars_of, clone_strings, contains_str, digit_char, has_sub, id_list, int_text, lowercase_of, nat_to_text,
    owned, parse_i32, parse_i32_spec, push_str, split_ids, str_contains, to_lowercase, views,
};

verus! {

/// Builds hero capabilities.
pub struct ChampionCapabilityBuilder {
    pub keywords: KnowledgeKeywords,
}

/// Builds item value profiles.
pub struct ItemValueBuilder {
    pub keywords: KnowledgeKeywords,
}

/// Builds augment effect profiles.
pub struct AugmentEffectProfileBuilder {
    pub keywords: KnowledgeKeywords,
}

/// Builds trait effect profiles.
pub struct TraitEffectProfileBuilder;

/// Builds the whole knowledge base.
pub struct KnowledgeBaseBuilder {
    pub champ_builder: ChampionCapabilityBuilder,
    pub item_builder: ItemValueBuilder,
    pub augment_builder: AugmentEffectProfileBuilder,
    pub trait_builder: TraitEffectProfileBuilder,
}

/// How much of a batch of heroes was read with confidence.
#[derive(Debug, Clone)]
pub struct CoverageReport {
    pub total: usize,
    pub with_role: usize,
    pub with_damage_type: usize,
    pub low_confidence: Vec<String>,
    pub needs_override: Vec<String>,
    pub unknown_tags: Vec<String>,
}

/// Coverage of one kind of knowledge.
#[derive(Debug, Clone)]
pub struct CategoryCoverage {
    pub total: usize,
    pub tagged: usize,
    pub low_confidence: usize,
    pub needs_override: usize,
    pub unknown_terms: Vec<String>,
}

/// Coverage of each kind of knowledge.
#[derive(Debug, Clone)]
pub struct KnowledgeCoverageReport {
    pub champions: CategoryCoverage,
    pub items: CategoryCoverage,
    pub augments: CategoryCoverage,
    pub traits: CategoryCoverage,
}

/// The knowledge of a season: hero capabilities, item, augment and trait
/// profiles, and how much of each was read with confidence.
#[derive(Debug, Clone)]
pub struct KnowledgeBase {
    pub version: String,
    pub champions: Vec<ChampionCapability>,
    pub items: Vec<ItemValueProfile>,
    pub augments: Vec<AugmentEffectProfile>,
    pub traits: Vec<TraitEffectProfile>,
    pub coverage: KnowledgeCoverageReport,
}

/// Reads keyword tables from configuration.
pub struct KnowledgeKeywordLoader;

// ---------------------------------------------------------------------------
// Keyword tables
// ---------------------------------------------------------------------------

/// Some keyword of `kws` occurs in `d`.
pub open spec fn any_hit(d: Seq<char>, kws: Seq<Seq<char>>) -> bool {
    exists|i: int| 0 <= i < kws.len() && has_sub(d, #[trigger] kws[i])
}

/// The keywords of tag `key`, none when the tag is not listed.
pub open spec fn kw_of(t: KeywordTable, key: Seq<char>) -> Seq<Seq<char>> {
    match lookup(t, key) {
        Some(v) => v,
        None => seq![],
    }
}

/// The tags, in table order, some of whose keywords occur in `d`.
pub open spec fn hit_tags(d: Seq<char>, t: KeywordTable) -> Seq<Seq<char>>
    decreases t.len(),
{
    if t.len() == 0 {
        seq![]
    } else {
        let p = hit_tags(d, t.drop_last());
        if any_hit(d, t.last().1) {
            p.push(t.last().0)
        } else {
            p
        }
    }
}

/// The first tag, in table order, some of whose keywords occur in `d`.
pub open spec fn first_hit(d: Seq<char>, t: KeywordTable) -> Option<Seq<char>>
    decreases t.len(),
{
    if t.len() == 0 {
        None
    } else if any_hit(d, t[0].1) {
        Some(t[0].0)
    } else {
        first_hit(d, t.drop_first())
    }
}

fn any_hit_exec(d: &Vec<char>, kws: &Vec<String>) -> (b: bool)
    ensures
        b == any_hit(d@, views(kws@)),
{
    let mut i: usize = 0;
    while i < kws.len()
        invariant
            i <= kws@.len(),
            forall|k: int| 0 <= k < i ==> !has_sub(d@, #[trigger] views(kws@)[k]),
        decreases kws@.len() - i,
    {
        if contains_str(d, kws[i].as_str()) {
            assert(has_sub(d@, views(kws@)[i as int]));
            return true;
        }
        i = i + 1;
    }
    false
}

/// The keywords of tag `key` (a copy), none when not listed.
fn kw_of_exec(t: &Vec<(String, Vec<String>)>, key: &str) -> (r: Vec<String>)
    ensures
        views(r@) == kw_of(kw_table(t@), key@),
{
    let ghost tv = kw_table(t@);
    match first_key(t, key) {
        Some(i) => {
            proof {
                assert forall|j: int| 0 <= j < i implies tv[j].0 != tv[i as int].0 by {
                    assert(tv[j].0 == t@[j].0@);
                }
                lemma_lookup_first(tv, i as int);
            }
            clone_strings(&t[i].1)
        },
        None => {
            proof {
                assert forall|j: int| 0 <= j < tv.len() implies tv[j].0 != key@ by {
                    assert(tv[j].0 == t@[j].0@);
                }
                lemma_lookup_absent(tv, key@);
            }
            let r: Vec<String> = Vec::new();
            assert(views(r@) =~= Seq::<Seq<char>>::empty());
            r
        },
    }
}

fn hit_tags_exec(d: &Vec<char>, t: &Vec<(String, Vec<String>)>) -> (r: Vec<String>)
    ensures
        views(r@) == hit_tags(d@, kw_table(t@)),
{
    let ghost tv = kw_table(t@);
    let mut r: Vec<String> = Vec::new();
    let mut i: usize = 0;
    while i < t.len()
        invariant
            tv == kw_table(t@),
            i <= tv.len(),
            views(r@) == hit_tags(d@, tv.subrange(0, i as int)),
        decreases tv.len() - i,
    {
        let ghost nxt = tv.subrange(0, i + 1);
        assert(nxt.drop_last() =~= tv.subrange(0, i as int));
        assert(nxt.last() == (t@[i as int].0@, views(t@[i as int].1@)));
        if any_hit_exec(d, &t[i].1) {
            let ghost before = views(r@);
            r.push(t[i].0.clone());
            assert(views(r@) =~= before.push(t@[i as int].0@));
        }
        i = i + 1;
    }
    assert(tv.subrange(0, i as int) =~= tv);
    r
}

fn first_hit_exec(d: &Vec<char>, t: &Vec<(String, Vec<String>)>) -> (r: Option<String>)
    ensures
        match r {
            Some(s) => first_hit(d@, kw_table(t@)) == Some(s@),
            None => first_hit(d@, kw_table(t@)) is None,
        },
{
    let ghost tv = kw_table(t@);
    let mut i: usize = 0;
    assert(tv.skip(0) =~= tv);
    while i < t.len()
        invariant
            tv == kw_table(t@),
            i <= tv.len(),
            first_hit(d@, tv) == first_hit(d@, tv.skip(i as int)),
        decreases tv.len() - i,
    {
        assert(tv.skip(i as int)[0] == (t@[i as int].0@, views(t@[i as int].1@)));
        if any_hit_exec(d, &t[i].1) {
            return Some(t[i].0.clone());
        }
        assert(tv.skip(i as int).drop_first() =~= tv.skip(i + 1));
        i = i + 1;
    }
    assert(tv.skip(i as int).len() == 0);
    None
}

// ---------------------------------------------------------------------------
// Hero capabilities
// ---------------------------------------------------------------------------

/// The number a text holds, or `default`.
pub open spec fn num_or(text: Seq<char>, default: i32) -> int {
    match parse_i32_spec(text) {
        Some(v) => v as int,
        None => default as int,
    }
}

fn num_or_exec(text: &str, default: i32) -> (r: i32)
    ensures
        r == num_or(text@, default),
{
    match parse_i32(text) {
        Some(v) => v,
        None => default,
    }
}

pub struct SpikeView {
    pub spike_type: Seq<char>,
    pub value: i32,
    pub impact: i32,
}

impl View for PowerSpike {
    type V = SpikeView;

    open spec fn view(&self) -> SpikeView {
        SpikeView { spike_type: self.spike_type@, value: self.value, impact: self.impact }
    }
}

pub struct CapabilityView {
    pub hero_id: Seq<char>,
    pub name: Seq<char>,
    pub cost: i32,
    pub traits: Seq<Seq<char>>,
    pub role: ChampionRole,
    pub damage_profile: Seq<char>,
    pub damage_pattern: Seq<Seq<char>>,
    pub cast_pattern: Seq<char>,
    pub scaling_stats: Seq<Seq<char>>,
    pub position_role: Seq<char>,
    pub item_strictness: Seq<char>,
    pub power_spikes: Seq<SpikeView>,
    pub risk_profile: Seq<Seq<char>>,
    pub preferences_empty: bool,
    pub confidence_percent: int,
    pub needs_override: bool,
}

impl View for ChampionCapability {
    type V = CapabilityView;

    open spec fn view(&self) -> CapabilityView {
        CapabilityView {
            hero_id: self.hero_id@,
            name: self.name@,
            cost: self.cost,
            traits: views(self.traits@),
            role: self.role,
            damage_profile: self.damage_profile@,
            damage_pattern: views(self.damage_pattern@),
            cast_pattern: self.cast_pattern@,
            scaling_stats: views(self.scaling_stats@),
            position_role: self.position_role@,
            item_strictness: self.item_strictness@,
            power_spikes: self.power_spikes@.map_values(|s: PowerSpike| s@),
            risk_profile: views(self.risk_profile@),
            preferences_empty: self.item_preferences.core@.len() == 0 && self.item_preferences.strong@.len()
                == 0 && self.item_preferences.acceptable@.len() == 0 && self.item_preferences.emergency@.len()
                == 0 && self.item_preferences.bad@.len() == 0,
            confidence_percent: self.confidence_percent as int,
            needs_override: self.needs_override,
        }
    }
}

/// The lowercased skill texts the keywords are looked for in.
pub open spec fn capability_text(hero: HeroData) -> Seq<char> {
    lowercase_of(
        hero.skillName@ + " "@ + hero.skillDesc@ + " "@ + hero.skillBriefValue@ + " "@ + hero.skillValueDesc@,
    )
}

/// Role from health, damage and the raw skill description.
pub open spec fn role_spec(hero: HeroData) -> ChampionRole {
    let hp = num_or(hero.initHP@, 500);
    let ad = num_or(hero.initAttackDamage@, 50);
    let desc = hero.skillDesc@;
    if (hp > 800 && has_sub(desc, "嘲讽"@)) || (has_sub(desc, "护盾"@) && hp > 700) {
        ChampionRole::MainTank
    } else if hp > 700 || num_or(hero.armor@, 30) > 50 {
        ChampionRole::OffTank
    } else if ad > 70 && has_sub(desc, "伤害"@) {
        ChampionRole::PrimaryCarry
    } else if ad > 55 {
        ChampionRole::SecondaryCarry
    } else if has_sub(desc, "治疗"@) || has_sub(desc, "护盾"@) || has_sub(desc, "控制"@) {
        ChampionRole::Utility
    } else {
        ChampionRole::Filler
    }
}

/// Damage type from the keyword tables, then from the raw skill values.
pub open spec fn cap_damage_spec(kw: KeywordsView, d: Seq<char>, hero: HeroData) -> Seq<char> {
    let has_ad = any_hit(d, kw_of(kw.damage_types, "ad"@));
    let has_ap = any_hit(d, kw_of(kw.damage_types, "ap"@));
    if any_hit(d, kw_of(kw.damage_types, "true_damage"@)) {
        "true_damage"@
    } else if has_ad && has_ap {
        "hybrid"@
    } else if has_ap {
        "ap"@
    } else if has_ad {
        "ad"@
    } else if has_sub(hero.skillBriefValue@, "%"@) || has_sub(hero.skillDesc@, "法术"@) {
        "ap"@
    } else {
        "ad"@
    }
}

/// Attack patterns whose keywords occur; single-target when none does.
pub open spec fn cap_patterns_spec(kw: KeywordsView, d: Seq<char>) -> Seq<Seq<char>> {
    let tags = hit_tags(d, kw.attack_patterns);
    if tags.len() == 0 {
        seq!["single_target"@]
    } else {
        tags
    }
}

/// The first cast pattern whose keywords occur, else mana casting.
pub open spec fn cap_cast_spec(kw: KeywordsView, d: Seq<char>) -> Seq<char> {
    match first_hit(d, kw.cast_patterns) {
        Some(t) => t,
        None => "mana_cast"@,
    }
}

pub open spec fn push_if(t: Seq<Seq<char>>, c: bool, x: Seq<char>) -> Seq<Seq<char>> {
    if c {
        t.push(x)
    } else {
        t
    }
}

/// Stats the hero scales with; attack damage when none is found.
pub open spec fn scaling_spec(d: Seq<char>, hero: HeroData) -> Seq<Seq<char>> {
    let a = push_if(seq![], has_sub(d, "攻击力"@) || has_sub(d, "攻击"@), "attack_damage"@);
    let b = push_if(a, has_sub(d, "法术强度"@) || has_sub(d, "法强"@), "ability_power"@);
    let c = push_if(b, has_sub(d, "攻速"@) || has_sub(d, "攻击速度"@), "attack_speed"@);
    let e = push_if(c, num_or(hero.maxMP@, 100) >= 60, "mana"@);
    let f = push_if(e, num_or(hero.criticalStrikeChance@, 0) > 25, "crit"@);
    let g = push_if(f, has_sub(d, "生命值"@) || has_sub(d, "护甲"@), "health"@);
    if g.len() == 0 {
        seq!["attack_damage"@]
    } else {
        g
    }
}

pub open spec fn position_spec(hero: HeroData) -> Seq<char> {
    if num_or(hero.attackRange@, 1) >= 3 {
        "backline"@
    } else if num_or(hero.initHP@, 500) > 700 {
        "frontline"@
    } else {
        "flex"@
    }
}

pub open spec fn strictness_spec(hero: HeroData) -> Seq<char> {
    if hero.cost >= 4 {
        "high"@
    } else if hero.cost >= 3 {
        "medium"@
    } else {
        "low"@
    }
}

pub open spec fn spikes_spec(hero: HeroData) -> Seq<SpikeView> {
    seq![
        SpikeView { spike_type: "star"@, value: 2, impact: if hero.cost <= 2 { 30 } else { 15 } },
        SpikeView { spike_type: "star"@, value: 3, impact: if hero.cost <= 3 { 40 } else { 25 } },
        SpikeView { spike_type: "item_count"@, value: 2, impact: 20 },
    ]
}

pub open spec fn risks_spec(d: Seq<char>) -> Seq<Seq<char>> {
    let a = push_if(seq![], has_sub(d, "眩晕"@) || has_sub(d, "击飞"@), "crowd_control"@);
    let b = push_if(a, has_sub(d, "爆发"@), "burst_damage"@);
    push_if(b, has_sub(d, "重伤"@) || has_sub(d, "减疗"@), "anti_heal"@)
}

/// Confidence in percent: 40, plus 10 for each damage-type and cast-pattern
/// entry whose keywords occur, at most 95.
pub open spec fn confidence_spec(kw: KeywordsView, d: Seq<char>) -> int {
    let hits = hit_tags(d, kw.damage_types).len() + hit_tags(d, kw.cast_patterns).len();
    if hits >= 6 {
        95
    } else {
        (40 + 10 * hits) as int
    }
}

/// The capability of a hero.
pub open spec fn capability_spec(kw: KeywordsView, hero: HeroData) -> CapabilityView {
    let d = capability_text(hero);
    let conf = confidence_spec(kw, d);
    CapabilityView {
        hero_id: hero.id@,
        name: hero.name@,
        cost: hero.cost,
        traits: id_list(hero.species@) + id_list(hero.hero_class@),
        role: role_spec(hero),
        damage_profile: cap_damage_spec(kw, d, hero),
        damage_pattern: cap_patterns_spec(kw, d),
        cast_pattern: cap_cast_spec(kw, d),
        scaling_stats: scaling_spec(d, hero),
        position_role: position_spec(hero),
        item_strictness: strictness_spec(hero),
        power_spikes: spikes_spec(hero),
        risk_profile: risks_spec(d),
        preferences_empty: true,
        confidence_percent: conf,
        needs_override: conf < 50,
    }
}

fn push_tag(t: &mut Vec<String>, c: bool, x: &str)
    ensures
        views(final(t)@) == push_if(views(old(t)@), c, x@),
{
    if c {
        let ghost before = views(t@);
        t.push(owned(x));
        assert(views(t@) =~= before.push(x@));
    }
}

fn single(x: &str) -> (r: Vec<String>)
    ensures
        views(r@) == seq![x@],
{
    let r = vec![owned(x)];
    assert(views(r@) =~= seq![x@]);
    r
}

fn empty_texts() -> (r: Vec<String>)
    ensures
        views(r@) == Seq::<Seq<char>>::empty(),
{
    let r: Vec<String> = Vec::new();
    assert(views(r@) =~= Seq::<Seq<char>>::empty());
    r
}

/// `0.xx` rendering of a percentage under 100, as a float prints with two
/// decimals.
pub open spec fn percent_text(p: int) -> Seq<char> {
    "0."@ + seq![digit_char(p / 10), digit_char(p % 10)]
}

fn percent_to_text(p: i32) -> (r: String)
    requires
        0 <= p < 100,
    ensures
        r@ == percent_text(p as int),
{
    let mut r = owned("0.");
    let tens = nat_to_text((p / 10) as u64);
    let ones = nat_to_text((p % 10) as u64);
    push_str(&mut r, tens.as_str());
    push_str(&mut r, ones.as_str());
    proof {
        reveal_with_fuel(crate::text::nat_text, 2);
    }
    assert(r@ =~= percent_text(p as int));
    r
}

impl ChampionCapabilityBuilder {
    pub open spec fn keywords_view(&self) -> KeywordsView {
        self.keywords@
    }

    /// A builder over the given keyword tables.
    pub fn new(keywords: KnowledgeKeywords) -> (b: Self)
        ensures
            b.keywords@ == keywords@,
    {
        ChampionCapabilityBuilder { keywords }
    }

    /// A builder over the built-in keyword tables.
    pub fn with_defaults() -> (b: Self)
        ensures
            b.keywords@ == default_keywords(),
    {
        Self::new(KnowledgeKeywords::default())
    }

    fn classify_role(hero: &HeroData) -> (r: ChampionRole)
        ensures
            r == role_spec(*hero),
    {
        let hp = num_or_exec(hero.initHP.as_str(), 500);
        let ad = num_or_exec(hero.initAttackDamage.as_str(), 50);
        let desc = hero.skillDesc.as_str();
        if (hp > 800 && str_contains(desc, "嘲讽")) || (str_contains(desc, "护盾") && hp > 700) {
            ChampionRole::MainTank
        } else if hp > 700 || num_or_exec(hero.armor.as_str(), 30) > 50 {
            ChampionRole::OffTank
        } else if ad > 70 && str_contains(desc, "伤害") {
            ChampionRole::PrimaryCarry
        } else if ad > 55 {
            ChampionRole::SecondaryCarry
        } else if str_contains(desc, "治疗") || str_contains(desc, "护盾") || str_contains(desc, "控制") {
            ChampionRole::Utility
        } else {
            ChampionRole::Filler
        }
    }

    fn classify_damage_type(&self, d: &Vec<char>, hero: &HeroData) -> (r: String)
        ensures
            r@ == cap_damage_spec(self.keywords@, d@, *hero),
    {
        let true_kws = kw_of_exec(&self.keywords.damage_types, "true_damage");
        let ad_kws = kw_of_exec(&self.keywords.damage_types, "ad");
        let ap_kws = kw_of_exec(&self.keywords.damage_types, "ap");
        let has_ad = any_hit_exec(d, &ad_kws);
        let has_ap = any_hit_exec(d, &ap_kws);
        if any_hit_exec(d, &true_kws) {
            owned("true_damage")
        } else if has_ad && has_ap {
            owned("hybrid")
        } else if has_ap {
            owned("ap")
        } else if has_ad {
            owned("ad")
        } else if str_contains(hero.skillBriefValue.as_str(), "%") || str_contains(hero.skillDesc.as_str(), "法术") {
            owned("ap")
        } else {
            owned("ad")
        }
    }

    fn classify_scaling_stats(d: &Vec<char>, hero: &HeroData) -> (r: Vec<String>)
        ensures
            views(r@) == scaling_spec(d@, *hero),
    {
        let mut stats = empty_texts();
        let a = contains_str(d, "攻击力") || contains_str(d, "攻击");
        push_tag(&mut stats, a, "attack_damage");
        let b = contains_str(d, "法术强度") || contains_str(d, "法强");
        push_tag(&mut stats, b, "ability_power");
        let c = contains_str(d, "攻速") || contains_str(d, "攻击速度");
        push_tag(&mut stats, c, "attack_speed");
        let e = num_or_exec(hero.maxMP.as_str(), 100) >= 60;
        push_tag(&mut stats, e, "mana");
        let f = num_or_exec(hero.criticalStrikeChance.as_str(), 0) > 25;
        push_tag(&mut stats, f, "crit");
        let g = contains_str(d, "生命值") || contains_str(d, "护甲");
        push_tag(&mut stats, g, "health");
        if stats.len() == 0 {
            return single("attack_damage");
        }
        stats
    }

    fn classify_position(hero: &HeroData) -> (r: String)
        ensures
            r@ == position_spec(*hero),
    {
        if num_or_exec(hero.attackRange.as_str(), 1) >= 3 {
            owned("backline")
        } else if num_or_exec(hero.initHP.as_str(), 500) > 700 {
            owned("frontline")
        } else {
            owned("flex")
        }
    }

    fn classify_item_strictness(hero: &HeroData) -> (r: String)
        ensures
            r@ == strictness_spec(*hero),
    {
        if hero.cost >= 4 {
            owned("high")
        } else if hero.cost >= 3 {
            owned("medium")
        } else {
            owned("low")
        }
    }

    fn classify_power_spikes(hero: &HeroData) -> (r: Vec<PowerSpike>)
        ensures
            r@.map_values(|s: PowerSpike| s@) == spikes_spec(*hero),
    {
        let r = vec![
            PowerSpike { spike_type: owned("star"), value: 2, impact: if hero.cost <= 2 { 30 } else { 15 } },
            PowerSpike { spike_type: owned("star"), value: 3, impact: if hero.cost <= 3 { 40 } else { 25 } },
            PowerSpike { spike_type: owned("item_count"), value: 2, impact: 20 },
        ];
        assert(r@.map_values(|s: PowerSpike| s@) =~= spikes_spec(*hero));
        r
    }

    fn classify_risks(d: &Vec<char>) -> (r: Vec<String>)
        ensures
            views(r@) == risks_spec(d@),
    {
        let mut risks = empty_texts();
        let a = contains_str(d, "眩晕") || contains_str(d, "击飞");
        push_tag(&mut risks, a, "crowd_control");
        let b = contains_str(d, "爆发");
        push_tag(&mut risks, b, "burst_damage");
        let c = contains_str(d, "重伤") || contains_str(d, "减疗");
        push_tag(&mut risks, c, "anti_heal");
        risks
    }

    fn estimate_confidence(&self, d: &Vec<char>) -> (r: i32)
        ensures
            r == confidence_spec(self.keywords@, d@),
    {
        let a = hit_tags_exec(d, &self.keywords.damage_types);
        let b = hit_tags_exec(d, &self.keywords.cast_patterns);
        assert(views(a@).len() == a@.len());
        assert(views(b@).len() == b@.len());
        if a.len() >= 6 || b.len() >= 6 - a.len() {
            95
        } else {
            let hits = (a.len() + b.len()) as i32;
            40 + 10 * hits
        }
    }

    /// The capability of a hero.
    pub fn build(&self, hero: &HeroData) -> (c: ChampionCapability)
        ensures
            c@ == capability_spec(self.keywords@, *hero),
    {
        let mut text = cat(hero.skillName.as_str(), " ");
        push_str(&mut text, hero.skillDesc.as_str());
        push_str(&mut text, " ");
        push_str(&mut text, hero.skillBriefValue.as_str());
        push_str(&mut text, " ");
        push_str(&mut text, hero.skillValueDesc.as_str());
        let lowered = to_lowercase(text.as_str());
        let d = chars_of(lowered.as_str());
        let mut traits = split_ids(hero.species.as_str());
        let mut classes = split_ids(hero.hero_class.as_str());
        let ghost tv = views(traits@);
        let ghost cv = views(classes@);
        traits.append(&mut classes);
        assert(views(traits@) =~= tv + cv);
        let patterns = hit_tags_exec(&d, &self.keywords.attack_patterns);
        let damage_pattern = if patterns.len() == 0 {
            single("single_target")
        } else {
            patterns
        };
        let cast_pattern = match first_hit_exec(&d, &self.keywords.cast_patterns) {
            Some(t) => t,
            None => owned("mana_cast"),
        };
        let confidence = self.estimate_confidence(&d);
        let prefs = ItemPreferences {
            core: Vec::new(),
            strong: Vec::new(),
            acceptable: Vec::new(),
            emergency: Vec::new(),
            bad: Vec::new(),
        };
        ChampionCapability {
            hero_id: hero.id.clone(),
            name: hero.name.clone(),
            cost: hero.cost,
            traits,
            role: Self::classify_role(hero),
            damage_profile: self.classify_damage_type(&d, hero),
            damage_pattern,
            cast_pattern,
            scaling_stats: Self::classify_scaling_stats(&d, hero),
            position_role: Self::classify_position(hero),
            item_strictness: Self::classify_item_strictness(hero),
            power_spikes: Self::classify_power_spikes(hero),
            risk_profile: Self::classify_risks(&d),
            item_preferences: prefs,
            confidence_percent: confidence,
            needs_override: confidence < 50,
        }
    }
}

// ---------------------------------------------------------------------------
// Batches of heroes
// ---------------------------------------------------------------------------

/// Heroes a knowledge base is built for: purchasable and not a training dummy.
pub open spec fn is_playable(hero: HeroData) -> bool {
    hero.cost > 0 && !has_sub(hero.name@, "假人"@)
}

/// The playable heroes, in order.
pub open spec fn playable(heroes: Seq<HeroData>) -> Seq<HeroData>
    decreases heroes.len(),
{
    if heroes.len() == 0 {
        seq![]
    } else {
        let p = playable(heroes.drop_last());
        if is_playable(heroes.last()) {
            p.push(heroes.last())
        } else {
            p
        }
    }
}

/// Number of capabilities satisfying a carry role.
pub open spec fn carry_count(c: Seq<CapabilityView>) -> nat
    decreases c.len(),
{
    if c.len() == 0 {
        0
    } else {
        carry_count(c.drop_last()) + if c.last().role == ChampionRole::PrimaryCarry || c.last().role
            == ChampionRole::SecondaryCarry {
            1nat
        } else {
            0nat
        }
    }
}

/// Number of capabilities with a damage type.
pub open spec fn typed_count(c: Seq<CapabilityView>) -> nat
    decreases c.len(),
{
    if c.len() == 0 {
        0
    } else {
        typed_count(c.drop_last()) + if c.last().damage_profile.len() > 0 {
            1nat
        } else {
            0nat
        }
    }
}

/// `name (conf=0.xx)` of each capability under 70% confidence.
pub open spec fn low_confidence_lines(c: Seq<CapabilityView>) -> Seq<Seq<char>>
    decreases c.len(),
{
    if c.len() == 0 {
        seq![]
    } else {
        let x = c.last();
        push_if(
            low_confidence_lines(c.drop_last()),
            x.confidence_percent < 70,
            x.name + " (conf="@ + percent_text(x.confidence_percent) + ")"@,
        )
    }
}

/// Ids of the capabilities that need a manual override.
pub open spec fn override_ids(c: Seq<CapabilityView>) -> Seq<Seq<char>>
    decreases c.len(),
{
    if c.len() == 0 {
        seq![]
    } else {
        push_if(override_ids(c.drop_last()), c.last().needs_override, c.last().hero_id)
    }
}

pub struct ReportView {
    pub total: int,
    pub with_role: int,
    pub with_damage_type: int,
    pub low_confidence: Seq<Seq<char>>,
    pub needs_override: Seq<Seq<char>>,
    pub unknown_tags: Seq<Seq<char>>,
}

impl View for CoverageReport {
    type V = ReportView;

    open spec fn view(&self) -> ReportView {
        ReportView {
            total: self.total as int,
            with_role: self.with_role as int,
            with_damage_type: self.with_damage_type as int,
            low_confidence: views(self.low_confidence@),
            needs_override: views(self.needs_override@),
            unknown_tags: views(self.unknown_tags@),
        }
    }
}

pub open spec fn cap_views(c: Seq<ChampionCapability>) -> Seq<CapabilityView> {
    c.map_values(|x: ChampionCapability| x@)
}

proof fn lemma_confidence_bounds(kw: KeywordsView, d: Seq<char>)
    ensures
        40 <= confidence_spec(kw, d) <= 95,
{
}

impl ChampionCapabilityBuilder {
    /// Capabilities of the playable heroes, with the coverage of the batch.
    pub fn build_all(&self, heroes: &[&HeroData]) -> (r: (Vec<ChampionCapability>, CoverageReport))
        ensures
            ({
                let hs = heroes@.map_values(|h: &HeroData| *h);
                let caps = playable(hs).map_values(|h: HeroData| capability_spec(self.keywords@, h));
                &&& cap_views(r.0@) == caps
                &&& r.1@ == ReportView {
                    total: caps.len() as int,
                    with_role: carry_count(caps) as int,
                    with_damage_type: typed_count(caps) as int,
                    low_confidence: low_confidence_lines(caps),
                    needs_override: override_ids(caps),
                    unknown_tags: seq![],
                }
            }),
    {
        let ghost hs = heroes@.map_values(|h: &HeroData| *h);
        let mut caps: Vec<ChampionCapability> = Vec::new();
        let mut low: Vec<String> = Vec::new();
        let mut overrides: Vec<String> = Vec::new();
        let mut with_role: usize = 0;
        let mut with_damage: usize = 0;
        let mut i: usize = 0;
        while i < heroes.len()
            invariant
                hs == heroes@.map_values(|h: &HeroData| *h),
                i <= heroes@.len(),
                cap_views(caps@) == playable(hs.subrange(0, i as int)).map_values(
                    |h: HeroData| capability_spec(self.keywords@, h),
                ),
                with_role == carry_count(cap_views(caps@)),
                with_damage == typed_count(cap_views(caps@)),
                views(low@) == low_confidence_lines(cap_views(caps@)),
                views(overrides@) == override_ids(cap_views(caps@)),
                with_role <= caps@.len(),
                with_damage <= caps@.len(),
                caps@.len() <= i,
            decreases heroes@.len() - i,
        {
            let ghost pre = hs.subrange(0, i as int);
            let ghost nxt = hs.subrange(0, i + 1);
            assert(nxt.drop_last() =~= pre);
            assert(nxt.last() == *heroes@[i as int]);
            let hero = heroes[i];
            if hero.cost > 0 && !str_contains(hero.name.as_str(), "假人") {
                let cap = self.build(hero);
                let ghost before = cap_views(caps@);
                let ghost cv = cap@;
                proof {
                    lemma_confidence_bounds(self.keywords@, capability_text(*hero));
                }
                if cap.needs_override {
                    let ghost ob = views(overrides@);
                    overrides.push(cap.hero_id.clone());
                    assert(views(overrides@) =~= ob.push(cv.hero_id));
                }
                if cap.confidence_percent < 70 {
                    let mut line = cat(cap.name.as_str(), " (conf=");
                    let pt = percent_to_text(cap.confidence_percent);
                    push_str(&mut line, pt.as_str());
                    push_str(&mut line, ")");
                    let ghost lb = views(low@);
                    low.push(line);
                    assert(views(low@) =~= lb.push(line@));
                }
                if cap.role == ChampionRole::PrimaryCarry || cap.role == ChampionRole::SecondaryCarry {
                    with_role = with_role + 1;
                }
                if cap.damage_profile.as_str().is_empty() {
                } else {
                    with_damage = with_damage + 1;
                }
                caps.push(cap);
                proof {
                    assert(cap_views(caps@) =~= before.push(cv));
                    assert(cap_views(caps@).drop_last() =~= before);
                    assert(playable(nxt) == playable(pre).push(*heroes@[i as int]));
                    assert(cap_views(caps@) =~= playable(nxt).map_values(
                        |h: HeroData| capability_spec(self.keywords@, h),
                    ));
                }
            } else {
                assert(playable(nxt) == playable(pre));
            }
            i = i + 1;
        }
        assert(hs.subrange(0, i as int) =~= hs);
        let report = CoverageReport {
            total: caps.len(),
            with_role,
            with_damage_type: with_damage,
            low_confidence: low,
            needs_override: overrides,
            unknown_tags: Vec::new(),
        };
        assert(report@.unknown_tags =~= Seq::<Seq<char>>::empty());
        (caps, report)
    }
}

// ---------------------------------------------------------------------------
// Item value profiles
// ---------------------------------------------------------------------------

pub struct StatView {
    pub name: Seq<char>,
    pub value: i32,
}

impl View for ItemStat {
    type V = StatView;

    open spec fn view(&self) -> StatView {
        StatView { name: self.name@, value: self.value }
    }
}

pub struct ItemProfileView {
    pub item_id: Seq<char>,
    pub name: Seq<char>,
    pub item_type: Seq<char>,
    pub stats: Seq<StatView>,
    pub effect_tags: Seq<Seq<char>>,
    pub best_for_profiles: Seq<Seq<char>>,
    pub bad_for_profiles: Seq<Seq<char>>,
    pub replacement_group: Seq<char>,
    pub conflict_group: Seq<char>,
    pub stage_bias: Seq<char>,
    pub tier: Option<Seq<char>>,
    pub damage_type_fit: Seq<Seq<char>>,
}

impl View for ItemValueProfile {
    type V = ItemProfileView;

    open spec fn view(&self) -> ItemProfileView {
        ItemProfileView {
            item_id: self.item_id@,
            name: self.name@,
            item_type: self.item_type@,
            stats: self.stats@.map_values(|x: ItemStat| x@),
            effect_tags: views(self.effect_tags@),
            best_for_profiles: views(self.best_for_profiles@),
            bad_for_profiles: views(self.bad_for_profiles@),
            replacement_group: self.replacement_group@,
            conflict_group: self.conflict_group@,
            stage_bias: self.stage_bias@,
            tier: match self.tier {
                Some(t) => Some(t@),
                None => None,
            },
            damage_type_fit: views(self.damage_type_fit@),
        }
    }
}

/// The lowercased name and descriptions of an item.
pub open spec fn item_text(e: EquipmentData) -> Seq<char> {
    lowercase_of(e.name@ + " "@ + e.basicDesc@ + " "@ + e.desc@)
}

/// Damage types an item suits.
pub open spec fn damage_fit_spec(e: EquipmentData, d: Seq<char>) -> Seq<Seq<char>> {
    if has_sub(e.equip_type@, "攻击"@) || has_sub(d, "攻"@) {
        seq!["ad"@]
    } else if has_sub(d, "法"@) || has_sub(d, "ap"@) {
        seq!["ap"@]
    } else if has_sub(d, "生命"@) || has_sub(d, "护甲"@) || has_sub(d, "抗"@) {
        seq!["tank"@]
    } else {
        seq!["ad"@, "ap"@]
    }
}

/// The fitting profiles of each damage type, in order.
pub open spec fn best_for_spec(t: KeywordTable, fit: Seq<Seq<char>>) -> Seq<Seq<char>>
    decreases fit.len(),
{
    if fit.len() == 0 {
        seq![]
    } else {
        best_for_spec(t, fit.drop_last()) + kw_of(t, fit.last())
    }
}

/// The first conflict group one of whose names occurs in the item's name.
pub open spec fn conflict_group_spec(t: KeywordTable, name: Seq<char>) -> Seq<char> {
    match first_hit(name, t) {
        Some(g) => g,
        None => seq![],
    }
}

pub open spec fn push_stat(t: Seq<StatView>, c: bool, name: Seq<char>, value: i32) -> Seq<StatView> {
    if c {
        t.push(StatView { name, value })
    } else {
        t
    }
}

/// Stats read from the raw basic description.
pub open spec fn stats_spec(basic: Seq<char>) -> Seq<StatView> {
    let a = push_stat(seq![], has_sub(basic, "攻击"@) || has_sub(basic, "物理"@), "ad"@, 10);
    let b = push_stat(a, has_sub(basic, "法强"@) || has_sub(basic, "法术"@) || has_sub(basic, "ap"@), "ap"@, 10);
    let c = push_stat(b, has_sub(basic, "攻速"@), "attack_speed"@, 10);
    let e = push_stat(c, has_sub(basic, "生命"@) || has_sub(basic, "hp"@), "hp"@, 150);
    let f = push_stat(e, has_sub(basic, "护甲"@), "armor"@, 20);
    let g = push_stat(f, has_sub(basic, "魔抗"@), "mr"@, 20);
    push_stat(g, has_sub(basic, "暴击"@), "crit"@, 10)
}

/// The value profile of an item.
pub open spec fn item_profile_spec(kw: KeywordsView, e: EquipmentData) -> ItemProfileView {
    let d = item_text(e);
    let fit = damage_fit_spec(e, d);
    ItemProfileView {
        item_id: e.id@,
        name: e.name@,
        item_type: e.equip_type@,
        stats: stats_spec(e.basicDesc@),
        effect_tags: hit_tags(d, kw.effect_tags),
        best_for_profiles: best_for_spec(kw.damage_type_item_fit, fit),
        bad_for_profiles: seq![],
        replacement_group: seq![],
        conflict_group: conflict_group_spec(kw.conflict_groups, e.name@),
        stage_bias: if e.is_completed {
            "mid_late"@
        } else {
            "early"@
        },
        tier: None,
        damage_type_fit: fit,
    }
}

fn push_stat_exec(t: &mut Vec<ItemStat>, c: bool, name: &str, value: i32)
    ensures
        final(t)@.map_values(|x: ItemStat| x@) == push_stat(old(t)@.map_values(|x: ItemStat| x@), c, name@, value),
{
    if c {
        let ghost before = t@.map_values(|x: ItemStat| x@);
        t.push(ItemStat { name: owned(name), value });
        assert(t@.map_values(|x: ItemStat| x@) =~= before.push(StatView { name: name@, value }));
    }
}

fn two_texts(a: &str, b: &str) -> (r: Vec<String>)
    ensures
        views(r@) == seq![a@, b@],
{
    let r = vec![owned(a), owned(b)];
    assert(views(r@) =~= seq![a@, b@]);
    r
}

impl ItemValueBuilder {
    /// A builder over the given keyword tables.
    pub fn new(keywords: KnowledgeKeywords) -> (b: Self)
        ensures
            b.keywords@ == keywords@,
    {
        ItemValueBuilder { keywords }
    }

    /// A builder over the built-in keyword tables.
    pub fn with_defaults() -> (b: Self)
        ensures
            b.keywords@ == default_keywords(),
    {
        Self::new(KnowledgeKeywords::default())
    }

    fn extract_stats(equip: &EquipmentData) -> (r: Vec<ItemStat>)
        ensures
            r@.map_values(|x: ItemStat| x@) == stats_spec(equip.basicDesc@),
    {
        let basic = chars_of(equip.basicDesc.as_str());
        let mut stats: Vec<ItemStat> = Vec::new();
        assert(stats@.map_values(|x: ItemStat| x@) =~= Seq::<StatView>::empty());
        let a = contains_str(&basic, "攻击") || contains_str(&basic, "物理");
        push_stat_exec(&mut stats, a, "ad", 10);
        let b = contains_str(&basic, "法强") || contains_str(&basic, "法术") || contains_str(&basic, "ap");
        push_stat_exec(&mut stats, b, "ap", 10);
        let c = contains_str(&basic, "攻速");
        push_stat_exec(&mut stats, c, "attack_speed", 10);
        let e = contains_str(&basic, "生命") || contains_str(&basic, "hp");
        push_stat_exec(&mut stats, e, "hp", 150);
        let f = contains_str(&basic, "护甲");
        push_stat_exec(&mut stats, f, "armor", 20);
        let g = contains_str(&basic, "魔抗");
        push_stat_exec(&mut stats, g, "mr", 20);
        let h = contains_str(&basic, "暴击");
        push_stat_exec(&mut stats, h, "crit", 10);
        stats
    }

    fn classify_best_for(&self, fit: &Vec<String>) -> (r: Vec<String>)
        ensures
            views(r@) == best_for_spec(self.keywords@.damage_type_item_fit, views(fit@)),
    {
        let ghost fv = views(fit@);
        let ghost t = self.keywords@.damage_type_item_fit;
        let mut r: Vec<String> = Vec::new();
        let mut i: usize = 0;
        while i < fit.len()
            invariant
                fv == views(fit@),
                t == self.keywords@.damage_type_item_fit,
                i <= fv.len(),
                views(r@) == best_for_spec(t, fv.subrange(0, i as int)),
            decreases fv.len() - i,
        {
            let ghost nxt = fv.subrange(0, i + 1);
            assert(nxt.drop_last() =~= fv.subrange(0, i as int));
            assert(nxt.last() == fit@[i as int]@);
            let mut fits = kw_of_exec(&self.keywords.damage_type_item_fit, fit[i].as_str());
            let ghost before = views(r@);
            let ghost added = views(fits@);
            r.append(&mut fits);
            assert(views(r@) =~= before + added);
            i = i + 1;
        }
        assert(fv.subrange(0, i as int) =~= fv);
        r
    }

    /// The value profile of an item.
    pub fn build(&self, equip: &EquipmentData) -> (p: ItemValueProfile)
        ensures
            p@ == item_profile_spec(self.keywords@, *equip),
    {
        let mut text = cat(equip.name.as_str(), " ");
        push_str(&mut text, equip.basicDesc.as_str());
        push_str(&mut text, " ");
        push_str(&mut text, equip.desc.as_str());
        let lowered = to_lowercase(text.as_str());
        let d = chars_of(lowered.as_str());
        let effect_tags = hit_tags_exec(&d, &self.keywords.effect_tags);
        let damage_type_fit = if str_contains(equip.equip_type.as_str(), "攻击") || contains_str(&d, "攻") {
            single("ad")
        } else if contains_str(&d, "法") || contains_str(&d, "ap") {
            single("ap")
        } else if contains_str(&d, "生命") || contains_str(&d, "护甲") || contains_str(&d, "抗") {
            single("tank")
        } else {
            two_texts("ad", "ap")
        };
        let best_for = self.classify_best_for(&damage_type_fit);
        let name_chars = chars_of(equip.name.as_str());
        let conflict_group = match first_hit_exec(&name_chars, &self.keywords.conflict_groups) {
            Some(g) => g,
            None => String::new(),
        };
        let stage_bias = if equip.is_completed {
            owned("mid_late")
        } else {
            owned("early")
        };
        let p = ItemValueProfile {
            item_id: equip.id.clone(),
            name: equip.name.clone(),
            item_type: equip.equip_type.clone(),
            stats: Self::extract_stats(equip),
            effect_tags,
            best_for_profiles: best_for,
            bad_for_profiles: Vec::new(),
            replacement_group: String::new(),
            conflict_group,
            stage_bias,
            tier: None,
            damage_type_fit,
        };
        assert(p@.bad_for_profiles =~= Seq::<Seq<char>>::empty());
        p
    }

    /// The value profiles of several items, in order.
    pub fn build_all(&self, equips: &[&EquipmentData]) -> (r: Vec<ItemValueProfile>)
        ensures
            r@.len() == equips@.len(),
            forall|i: int| 0 <= i < r@.len() ==> (#[trigger] r@[i])@ == item_profile_spec(self.keywords@, *equips@[i]),
    {
        let mut r: Vec<ItemValueProfile> = Vec::new();
        let mut i: usize = 0;
        while i < equips.len()
            invariant
                i <= equips@.len(),
                r@.len() == i,
                forall|k: int| 0 <= k < i ==> (#[trigger] r@[k])@ == item_profile_spec(self.keywords@, *equips@[k]),
            decreases equips@.len() - i,
        {
            r.push(self.build(equips[i]));
            i = i + 1;
        }
        r
    }
}

// ---------------------------------------------------------------------------
// Augment and trait effect profiles
// ---------------------------------------------------------------------------

pub struct AugmentProfileView {
    pub augment_id: Seq<char>,
    pub name: Seq<char>,
    pub level: i32,
    pub tags: Seq<Seq<char>>,
    pub immediate_power: i32,
    pub lineup_coverage: i32,
    pub lock_risk: i32,
    pub hints: Seq<Seq<char>>,
}

impl View for AugmentEffectProfile {
    type V = AugmentProfileView;

    open spec fn view(&self) -> AugmentProfileView {
        AugmentProfileView {
            augment_id: self.augment_id@,
            name: self.name@,
            level: self.level,
            tags: views(self.tags@),
            immediate_power: self.immediate_power,
            lineup_coverage: self.lineup_coverage,
            lock_risk: self.lock_risk,
            hints: views(self.hints@),
        }
    }
}

/// Any of four keywords occurs.
pub open spec fn any4(d: Seq<char>, a: Seq<char>, b: Seq<char>, c: Seq<char>, e: Seq<char>) -> bool {
    has_sub(d, a) || has_sub(d, b) || has_sub(d, c) || has_sub(d, e)
}

/// Augment type tags from the raw name and description; generic combat when
/// none applies.
pub open spec fn augment_tags_spec(d: Seq<char>) -> Seq<Seq<char>> {
    let a = push_if(seq![], any4(d, "金币"@, "经济"@, "利息"@, "免费"@), "generic_econ"@);
    let b = push_if(a, any4(d, "装备"@, "散件"@, "锻造"@, "重铸"@), "generic_item"@);
    let c = push_if(b, any4(d, "攻击力"@, "法强"@, "伤害"@, "攻速"@), "generic_combat"@);
    let e = push_if(c, any4(d, "纹章"@, "转职"@, "之心"@, "羁绊"@), "trait_commit"@);
    let f = push_if(e, has_sub(d, "英雄"@) || has_sub(d, "专属"@) || has_sub(d, "强化"@), "hero_commit"@);
    let g = push_if(f, has_sub(d, "刷新"@) || has_sub(d, "低费"@) || has_sub(d, "三星"@), "reroll_enable"@);
    let h = push_if(g, has_sub(d, "星神"@) || has_sub(d, "天选"@) || has_sub(d, "任务"@), "mode_special"@);
    if h.len() == 0 {
        seq!["generic_combat"@]
    } else {
        h
    }
}

/// The effect profile of an augment.
pub open spec fn augment_profile_spec(hex: HexData) -> AugmentProfileView {
    let d = hex.name@ + " "@ + hex.desc@;
    let tags = augment_tags_spec(d);
    let level = match parse_i32_spec(hex.level@) {
        Some(v) => v,
        None => 1i32,
    };
    AugmentProfileView {
        augment_id: hex.id@,
        name: hex.name@,
        level,
        tags,
        immediate_power: if level == 1 {
            30
        } else if level == 2 {
            50
        } else if level == 3 {
            70
        } else {
            50
        },
        lineup_coverage: 0,
        lock_risk: if tags.contains("hero_commit"@) {
            60
        } else {
            20
        },
        hints: if any4(d, "金币"@, "经济"@, "利息"@, "免费"@) {
            seq!["经济收益"@]
        } else {
            seq![]
        },
    }
}

/// An augment's profile carries at least one tag and no tag twice; its
/// immediate power is 30, 50 or 70 at levels 1, 2 and 3 and 50 at any other
/// level (level 1 when the level does not read); it locks a direction with
/// risk 60 when it commits to heroes, else 20.
pub proof fn lemma_augment_profile(hex: HexData)
    ensures
        ({
            let p = augment_profile_spec(hex);
            &&& p.tags.len() > 0
            &&& forall|i: int, j: int| 0 <= i < j < p.tags.len() ==> p.tags[i] != p.tags[j]
            &&& p.level == match parse_i32_spec(hex.level@) {
                Some(v) => v,
                None => 1i32,
            }
            &&& p.immediate_power == if p.level == 1 {
                30int
            } else if p.level == 2 {
                50int
            } else if p.level == 3 {
                70int
            } else {
                50int
            }
            &&& p.lock_risk == if p.tags.contains("hero_commit"@) {
                60int
            } else {
                20int
            }
        }),
{
    reveal_strlit("generic_econ");
    reveal_strlit("generic_item");
    reveal_strlit("generic_combat");
    reveal_strlit("trait_commit");
    reveal_strlit("hero_commit");
    reveal_strlit("reroll_enable");
    reveal_strlit("mode_special");
    let tags = augment_profile_spec(hex).tags;
    assert("generic_econ"@[8] == 'e' && "generic_item"@[8] == 'i' && "generic_combat"@[8] == 'c');
    assert("trait_commit"@[0] == 't' && "hero_commit"@[0] == 'h' && "reroll_enable"@[0] == 'r');
    assert("mode_special"@[0] == 'm' && "generic_econ"@[0] == 'g');
    assert forall|i: int, j: int| 0 <= i < j < tags.len() implies tags[i] != tags[j] by {
        if tags[i] == tags[j] {
            assert(tags[i][0] == tags[j][0]);
            assert(tags[i][8] == tags[j][8]);
        }
    }
}

fn any4_exec(d: &Vec<char>, a: &str, b: &str, c: &str, e: &str) -> (r: bool)
    ensures
        r == any4(d@, a@, b@, c@, e@),
{
    contains_str(d, a) || contains_str(d, b) || contains_str(d, c) || contains_str(d, e)
}

impl AugmentEffectProfileBuilder {
    /// A builder over the given keyword tables.
    pub fn new(keywords: KnowledgeKeywords) -> (b: Self)
        ensures
            b.keywords@ == keywords@,
    {
        AugmentEffectProfileBuilder { keywords }
    }

    /// The effect profile of an augment.
    pub fn build(&self, hex: &HexData) -> (p: AugmentEffectProfile)
        ensures
            p@ == augment_profile_spec(*hex),
    {
        let mut text = cat(hex.name.as_str(), " ");
        push_str(&mut text, hex.desc.as_str());
        let d = chars_of(text.as_str());
        let mut tags = empty_texts();
        let mut hints = empty_texts();
        let econ = any4_exec(&d, "金币", "经济", "利息", "免费");
        push_tag(&mut tags, econ, "generic_econ");
        push_tag(&mut hints, econ, "经济收益");
        let item = any4_exec(&d, "装备", "散件", "锻造", "重铸");
        push_tag(&mut tags, item, "generic_item");
        let combat = any4_exec(&d, "攻击力", "法强", "伤害", "攻速");
        push_tag(&mut tags, combat, "generic_combat");
        let trait_commit = any4_exec(&d, "纹章", "转职", "之心", "羁绊");
        push_tag(&mut tags, trait_commit, "trait_commit");
        let hero = contains_str(&d, "英雄") || contains_str(&d, "专属") || contains_str(&d, "强化");
        push_tag(&mut tags, hero, "hero_commit");
        let reroll = contains_str(&d, "刷新") || contains_str(&d, "低费") || contains_str(&d, "三星");
        push_tag(&mut tags, reroll, "reroll_enable");
        let mode = contains_str(&d, "星神") || contains_str(&d, "天选") || contains_str(&d, "任务");
        push_tag(&mut tags, mode, "mode_special");
        if tags.len() == 0 {
            tags = single("generic_combat");
        }
        let level = match parse_i32(hex.level.as_str()) {
            Some(v) => v,
            None => 1,
        };
        let immediate_power = if level == 1 {
            30
        } else if level == 2 {
            50
        } else if level == 3 {
            70
        } else {
            50
        };
        let lock_risk = if crate::text::list_has(&tags, "hero_commit") {
            60
        } else {
            20
        };
        proof {
            reveal_strlit("经济收益");
        }
        AugmentEffectProfile {
            augment_id: hex.id.clone(),
            name: hex.name.clone(),
            level,
            tags,
            immediate_power,
            lineup_coverage: 0,
            lock_risk,
            hints,
        }
    }

    /// The effect profiles of several augments, in order.
    pub fn build_all(&self, hexes: &[&HexData]) -> (r: Vec<AugmentEffectProfile>)
        ensures
            r@.len() == hexes@.len(),
            forall|i: int| 0 <= i < r@.len() ==> (#[trigger] r@[i])@ == augment_profile_spec(*hexes@[i]),
    {
        let mut r: Vec<AugmentEffectProfile> = Vec::new();
        let mut i: usize = 0;
        while i < hexes.len()
            invariant
                i <= hexes@.len(),
                r@.len() == i,
                forall|k: int| 0 <= k < i ==> (#[trigger] r@[k])@ == augment_profile_spec(*hexes@[k]),
            decreases hexes@.len() - i,
        {
            r.push(self.build(hexes[i]));
            i = i + 1;
        }
        r
    }
}

pub struct TraitProfileView {
    pub trait_id: Seq<char>,
    pub name: Seq<char>,
    pub trait_type: Seq<char>,
    pub thresholds: Seq<i32>,
    pub effect_tags: Seq<Seq<char>>,
    pub lineup_value: i32,
    pub desc: Seq<char>,
}

impl View for TraitEffectProfile {
    type V = TraitProfileView;

    open spec fn view(&self) -> TraitProfileView {
        TraitProfileView {
            trait_id: self.trait_id@,
            name: self.name@,
            trait_type: self.trait_type@,
            thresholds: self.thresholds@,
            effect_tags: views(self.effect_tags@),
            lineup_value: self.lineup_value,
            desc: self.desc@,
        }
    }
}

/// Effect tags of a trait from its name, description and prefix.
pub open spec fn trait_tags_spec(d: Seq<char>) -> Seq<Seq<char>> {
    let a = push_if(seq![], has_sub(d, "伤害"@) || has_sub(d, "攻击"@), "damage"@);
    let b = push_if(a, has_sub(d, "生命"@) || has_sub(d, "护甲"@) || has_sub(d, "魔抗"@), "defense"@);
    let c = push_if(b, has_sub(d, "金币"@) || has_sub(d, "经济"@), "economy"@);
    let e = push_if(c, has_sub(d, "召唤"@) || has_sub(d, "分身"@), "summon"@);
    let f = push_if(e, has_sub(d, "控制"@) || has_sub(d, "眩晕"@) || has_sub(d, "击飞"@), "cc"@);
    push_if(f, has_sub(d, "装备"@) || has_sub(d, "锻造"@), "item_synergy"@)
}

/// The effect profile of a trait: lineup value 50, plus 10 for damage and 10
/// for defence, kept within 0-100.
pub open spec fn trait_profile_spec(t: TraitData) -> TraitProfileView {
    let d = t.name@ + " "@ + t.desc@ + " "@ + t.prefix@;
    let damage = has_sub(d, "伤害"@) || has_sub(d, "攻击"@);
    let defense = has_sub(d, "生命"@) || has_sub(d, "护甲"@) || has_sub(d, "魔抗"@);
    let value = 50 + (if damage {
        10int
    } else {
        0int
    }) + (if defense {
        10int
    } else {
        0int
    });
    TraitProfileView {
        trait_id: t.checkId@,
        name: t.name@,
        trait_type: if t.trait_type == 0 {
            "race"@
        } else {
            "job"@
        },
        thresholds: t.thresholds@,
        effect_tags: trait_tags_spec(d),
        lineup_value: clamp(value, 0, 100) as i32,
        desc: t.desc@,
    }
}

/// A trait's profile keeps its id, name, thresholds and description, is a
/// race at type 0 and a job otherwise, is tagged with damage exactly when its
/// text speaks of damage or attack and with defense exactly when it speaks of
/// health, armor or magic resist, and is worth 50 to a lineup, 10 more for
/// each of those two.
pub proof fn lemma_trait_profile(t: TraitData)
    ensures
        ({
            let p = trait_profile_spec(t);
            let d = t.name@ + " "@ + t.desc@ + " "@ + t.prefix@;
            let damage = has_sub(d, "伤害"@) || has_sub(d, "攻击"@);
            let defense = has_sub(d, "生命"@) || has_sub(d, "护甲"@) || has_sub(d, "魔抗"@);
            &&& p.trait_id == t.checkId@
            &&& p.name == t.name@
            &&& p.thresholds == t.thresholds@
            &&& p.desc == t.desc@
            &&& p.trait_type == if t.trait_type == 0 {
                "race"@
            } else {
                "job"@
            }
            &&& (p.effect_tags.contains("damage"@) <==> damage)
            &&& (p.effect_tags.contains("defense"@) <==> defense)
            &&& p.lineup_value == 50 + (if damage {
                10int
            } else {
                0int
            }) + (if defense {
                10int
            } else {
                0int
            })
        }),
{
    reveal_strlit("damage");
    reveal_strlit("defense");
    reveal_strlit("economy");
    reveal_strlit("summon");
    reveal_strlit("cc");
    reveal_strlit("item_synergy");
    let tags = trait_profile_spec(t).effect_tags;
    assert("damage"@[0] == 'd' && "defense"@[0] == 'd' && "damage"@[1] == 'a' && "defense"@[1] == 'e');
    assert("economy"@[0] == 'e' && "summon"@[0] == 's' && "cc"@[0] == 'c' && "item_synergy"@[0] == 'i');
    if tags.contains("damage"@) {
        let i = choose|i: int| 0 <= i < tags.len() && tags[i] == "damage"@;
        assert(tags[i][0] == 'd' && tags[i][1] == 'a');
    }
    if tags.contains("defense"@) {
        let i = choose|i: int| 0 <= i < tags.len() && tags[i] == "defense"@;
        assert(tags[i][0] == 'd' && tags[i][1] == 'e');
    }
    let d = t.name@ + " "@ + t.desc@ + " "@ + t.prefix@;
    if has_sub(d, "伤害"@) || has_sub(d, "攻击"@) {
        assert(tags[0] == "damage"@);
    }
    if has_sub(d, "生命"@) || has_sub(d, "护甲"@) || has_sub(d, "魔抗"@) {
        let a = push_if(seq![], has_sub(d, "伤害"@) || has_sub(d, "攻击"@), "damage"@);
        assert(tags[a.len() as int] == "defense"@);
    }
}

fn clone_i32s(v: &Vec<i32>) -> (r: Vec<i32>)
    ensures
        r@ == v@,
{
    let mut r: Vec<i32> = Vec::new();
    let mut i: usize = 0;
    while i < v.len()
        invariant
            i <= v@.len(),
            r@ == v@.subrange(0, i as int),
        decreases v@.len() - i,
    {
        r.push(v[i]);
        i = i + 1;
        assert(r@ =~= v@.subrange(0, i as int));
    }
    assert(r@ =~= v@);
    r
}

impl TraitEffectProfileBuilder {
    /// The effect profile of a trait.
    pub fn build(&self, trait_data: &TraitData) -> (p: TraitEffectProfile)
        ensures
            p@ == trait_profile_spec(*trait_data),
    {
        let mut text = cat(trait_data.name.as_str(), " ");
        push_str(&mut text, trait_data.desc.as_str());
        push_str(&mut text, " ");
        push_str(&mut text, trait_data.prefix.as_str());
        let d = chars_of(text.as_str());
        let mut tags = empty_texts();
        let mut value: i32 = 50;
        let damage = contains_str(&d, "伤害") || contains_str(&d, "攻击");
        push_tag(&mut tags, damage, "damage");
        if damage {
            value = value + 10;
        }
        let defense = contains_str(&d, "生命") || contains_str(&d, "护甲") || contains_str(&d, "魔抗");
        push_tag(&mut tags, defense, "defense");
        if defense {
            value = value + 10;
        }
        let economy = contains_str(&d, "金币") || contains_str(&d, "经济");
        push_tag(&mut tags, economy, "economy");
        let summon = contains_str(&d, "召唤") || contains_str(&d, "分身");
        push_tag(&mut tags, summon, "summon");
        let cc = contains_str(&d, "控制") || contains_str(&d, "眩晕") || contains_str(&d, "击飞");
        push_tag(&mut tags, cc, "cc");
        let items = contains_str(&d, "装备") || contains_str(&d, "锻造");
        push_tag(&mut tags, items, "item_synergy");
        let lineup_value = crate::num::clamp_i32(value, 0, 100);
        TraitEffectProfile {
            trait_id: trait_data.checkId.clone(),
            name: trait_data.name.clone(),
            trait_type: if trait_data.trait_type == 0 {
                owned("race")
            } else {
                owned("job")
            },
            thresholds: clone_i32s(&trait_data.thresholds),
            effect_tags: tags,
            lineup_value,
            desc: trait_data.desc.clone(),
        }
    }

    /// The effect profiles of several traits, in order.
    pub fn build_all(&self, traits: &[TraitData]) -> (r: Vec<TraitEffectProfile>)
        ensures
            r@.len() == traits@.len(),
            forall|i: int| 0 <= i < r@.len() ==> (#[trigger] r@[i])@ == trait_profile_spec(traits@[i]),
    {
        let mut r: Vec<TraitEffectProfile> = Vec::new();
        let mut i: usize = 0;
        while i < traits.len()
            invariant
                i <= traits@.len(),
                r@.len() == i,
                forall|k: int| 0 <= k < i ==> (#[trigger] r@[k])@ == trait_profile_spec(traits@[k]),
            decreases traits@.len() - i,
        {
            r.push(self.build(&traits[i]));
            i = i + 1;
        }
        r
    }
}

impl KnowledgeBaseBuilder {
    /// Builders sharing the given keyword tables.
    pub fn new(keywords: KnowledgeKeywords) -> (b: Self)
        ensures
            b.champ_builder.keywords@ == keywords@,
            b.item_builder.keywords@ == keywords@,
            b.augment_builder.keywords@ == keywords@,
    {
        let k1 = clone_keywords(&keywords);
        let k2 = clone_keywords(&keywords);
        KnowledgeBaseBuilder {
            champ_builder: ChampionCapabilityBuilder::new(k1),
            item_builder: ItemValueBuilder::new(k2),
            augment_builder: AugmentEffectProfileBuilder::new(keywords),
            trait_builder: TraitEffectProfileBuilder,
        }
    }

    /// Builders over the built-in keyword tables.
    pub fn with_defaults() -> (b: Self)
        ensures
            b.champ_builder.keywords@ == default_keywords(),
            b.item_builder.keywords@ == default_keywords(),
            b.augment_builder.keywords@ == default_keywords(),
    {
        Self::new(KnowledgeKeywords::default())
    }
}

/// A capability with the item strictness its override sets, if any (the
/// first entry listed for the hero).
pub open spec fn with_override(
    c: CapabilityView,
    overrides: Option<Seq<(Seq<char>, crate::champion_item_fit::ChampionItemOverrideEntry)>>,
) -> CapabilityView {
    match overrides {
        None => c,
        Some(t) => match lookup(t, c.hero_id) {
            Some(e) => match e.item_strictness {
                Some(x) => CapabilityView { item_strictness: x@, ..c },
                None => c,
            },
            None => c,
        },
    }
}

/// Number of item profiles with some effect tag.
pub open spec fn items_tagged(p: Seq<ItemProfileView>) -> nat
    decreases p.len(),
{
    if p.len() == 0 {
        0
    } else {
        items_tagged(p.drop_last()) + if p.last().effect_tags.len() > 0 {
            1nat
        } else {
            0nat
        }
    }
}

/// Number of augment profiles with some tag.
pub open spec fn augments_tagged(p: Seq<AugmentProfileView>) -> nat
    decreases p.len(),
{
    if p.len() == 0 {
        0
    } else {
        augments_tagged(p.drop_last()) + if p.last().tags.len() > 0 {
            1nat
        } else {
            0nat
        }
    }
}

/// Number of trait profiles with some effect tag.
pub open spec fn traits_tagged(p: Seq<TraitProfileView>) -> nat
    decreases p.len(),
{
    if p.len() == 0 {
        0
    } else {
        traits_tagged(p.drop_last()) + if p.last().effect_tags.len() > 0 {
            1nat
        } else {
            0nat
        }
    }
}

fn count_tagged_items(p: &Vec<ItemValueProfile>) -> (n: usize)
    ensures
        n == items_tagged(p@.map_values(|x: ItemValueProfile| x@)),
{
    let ghost v = p@.map_values(|x: ItemValueProfile| x@);
    let mut n: usize = 0;
    let mut i: usize = 0;
    while i < p.len()
        invariant
            v == p@.map_values(|x: ItemValueProfile| x@),
            i <= v.len(),
            n <= i,
            n == items_tagged(v.subrange(0, i as int)),
        decreases v.len() - i,
    {
        assert(v.subrange(0, i + 1).drop_last() =~= v.subrange(0, i as int));
        assert(v[i as int] == p@[i as int]@);
        if p[i].effect_tags.len() > 0 {
            n = n + 1;
        }
        i = i + 1;
    }
    assert(v.subrange(0, i as int) =~= v);
    n
}

fn count_tagged_augments(p: &Vec<AugmentEffectProfile>) -> (n: usize)
    ensures
        n == augments_tagged(p@.map_values(|x: AugmentEffectProfile| x@)),
{
    let ghost v = p@.map_values(|x: AugmentEffectProfile| x@);
    let mut n: usize = 0;
    let mut i: usize = 0;
    while i < p.len()
        invariant
            v == p@.map_values(|x: AugmentEffectProfile| x@),
            i <= v.len(),
            n <= i,
            n == augments_tagged(v.subrange(0, i as int)),
        decreases v.len() - i,
    {
        assert(v.subrange(0, i + 1).drop_last() =~= v.subrange(0, i as int));
        assert(v[i as int] == p@[i as int]@);
        if p[i].tags.len() > 0 {
            n = n + 1;
        }
        i = i + 1;
    }
    assert(v.subrange(0, i as int) =~= v);
    n
}

fn count_tagged_traits(p: &Vec<TraitEffectProfile>) -> (n: usize)
    ensures
        n == traits_tagged(p@.map_values(|x: TraitEffectProfile| x@)),
{
    let ghost v = p@.map_values(|x: TraitEffectProfile| x@);
    let mut n: usize = 0;
    let mut i: usize = 0;
    while i < p.len()
        invariant
            v == p@.map_values(|x: TraitEffectProfile| x@),
            i <= v.len(),
            n <= i,
            n == traits_tagged(v.subrange(0, i as int)),
        decreases v.len() - i,
    {
        assert(v.subrange(0, i + 1).drop_last() =~= v.subrange(0, i as int));
        assert(v[i as int] == p@[i as int]@);
        if p[i].effect_tags.len() > 0 {
            n = n + 1;
        }
        i = i + 1;
    }
    assert(v.subrange(0, i as int) =~= v);
    n
}

/// `r` is the knowledge built by `b` from the heroes, items, augments and
/// traits, with the item overrides `ov` applied to the heroes.
pub open spec fn knowledge_built(
    b: KnowledgeBaseBuilder,
    heroes: Seq<HeroData>,
    equips: Seq<EquipmentData>,
    hexes: Seq<HexData>,
    traits: Seq<TraitData>,
    ov: Option<Seq<(Seq<char>, crate::champion_item_fit::ChampionItemOverrideEntry)>>,
    r: KnowledgeBase,
) -> bool {
    let caps = playable(heroes).map_values(|h: HeroData| capability_spec(b.champ_builder.keywords@, h));
    let iv = r.items@.map_values(|x: ItemValueProfile| x@);
    let av = r.augments@.map_values(|x: AugmentEffectProfile| x@);
    let tv = r.traits@.map_values(|x: TraitEffectProfile| x@);
    &&& r.version@ == "S18.1"@
    &&& cap_views(r.champions@) == caps.map_values(|c: CapabilityView| with_override(c, ov))
    &&& r.items@.len() == equips.len()
    &&& forall|i: int|
        0 <= i < r.items@.len() ==> (#[trigger] r.items@[i])@ == item_profile_spec(
            b.item_builder.keywords@,
            equips[i],
        )
    &&& r.augments@.len() == hexes.len()
    &&& forall|i: int| 0 <= i < r.augments@.len() ==> (#[trigger] r.augments@[i])@ == augment_profile_spec(hexes[i])
    &&& r.traits@.len() == traits.len()
    &&& forall|i: int| 0 <= i < r.traits@.len() ==> (#[trigger] r.traits@[i])@ == trait_profile_spec(traits[i])
    &&& r.coverage.champions.total == caps.len()
    &&& r.coverage.champions.tagged == carry_count(caps)
    &&& r.coverage.champions.low_confidence == low_confidence_lines(caps).len()
    &&& r.coverage.champions.needs_override == override_ids(caps).len()
    &&& r.coverage.champions.unknown_terms@.len() == 0
    &&& r.coverage.items.total == equips.len()
    &&& r.coverage.items.tagged == items_tagged(iv)
    &&& r.coverage.items.low_confidence == equips.len() - items_tagged(iv)
    &&& r.coverage.items.needs_override == 0
    &&& r.coverage.items.unknown_terms@.len() == 0
    &&& r.coverage.augments.total == hexes.len()
    &&& r.coverage.augments.tagged == augments_tagged(av)
    &&& r.coverage.augments.low_confidence == 0
    &&& r.coverage.augments.needs_override == 0
    &&& r.coverage.augments.unknown_terms@.len() == 0
    &&& r.coverage.traits.total == traits.len()
    &&& r.coverage.traits.tagged == traits_tagged(tv)
    &&& r.coverage.traits.low_confidence == 0
    &&& r.coverage.traits.needs_override == 0
    &&& r.coverage.traits.unknown_terms@.len() == 0
}

impl KnowledgeBaseBuilder {
    /// The knowledge of a season without item overrides.
    pub fn build_all(&self, heroes: &[HeroData], equips: &[EquipmentData], hexes: &[HexData], traits: &[TraitData]) -> (r:
        KnowledgeBase)
        ensures
            knowledge_built(*self, heroes@, equips@, hexes@, traits@, None, r),
    {
        self.build_all_with_item_overrides(heroes, equips, hexes, traits, None)
    }

    /// The knowledge of a season: the capabilities of the playable heroes
    /// with their item overrides applied, the profiles of every item, augment
    /// and trait, and the coverage of each kind.
    pub fn build_all_with_item_overrides(
        &self,
        heroes: &[HeroData],
        equips: &[EquipmentData],
        hexes: &[HexData],
        traits: &[TraitData],
        item_overrides: Option<&crate::champion_item_fit::ChampionItemOverrides>,
    ) -> (r: KnowledgeBase)
        ensures
            knowledge_built(
                *self,
                heroes@,
                equips@,
                hexes@,
                traits@,
                match item_overrides {
                    Some(o) => Some(
                        o.overrides@.map_values(
                            |e: (String, crate::champion_item_fit::ChampionItemOverrideEntry)| (e.0@, e.1),
                        ),
                    ),
                    None => None,
                },
                r,
            ),
    {
        let mut hero_refs: Vec<&HeroData> = Vec::new();
        let mut i: usize = 0;
        while i < heroes.len()
            invariant
                i <= heroes@.len(),
                hero_refs@.len() == i,
                forall|q: int| 0 <= q < i ==> *(#[trigger] hero_refs@[q]) == heroes@[q],
            decreases heroes@.len() - i,
        {
            hero_refs.push(&heroes[i]);
            i = i + 1;
        }
        assert(hero_refs@.map_values(|h: &HeroData| *h) =~= heroes@);
        let (mut champions, report) = self.champ_builder.build_all(&hero_refs);
        let ghost caps = playable(heroes@).map_values(|h: HeroData| capability_spec(self.champ_builder.keywords@, h));
        let ghost ov = match item_overrides {
            Some(o) => Some(
                o.overrides@.map_values(|e: (String, crate::champion_item_fit::ChampionItemOverrideEntry)| (e.0@, e.1)),
            ),
            None => None,
        };
        if let Some(overrides) = item_overrides {
            let n = champions.len();
            let mut k: usize = 0;
            while k < n
                invariant
                    n == caps.len(),
                    champions@.len() == n,
                    ov == Some(
                        overrides.overrides@.map_values(
                            |e: (String, crate::champion_item_fit::ChampionItemOverrideEntry)| (e.0@, e.1),
                        ),
                    ),
                    k <= n,
                    forall|q: int| 0 <= q < k ==> (#[trigger] champions@[q])@ == with_override(caps[q], ov),
                    forall|q: int| k <= q < n ==> (#[trigger] champions@[q])@ == caps[q],
                decreases n - k,
            {
                crate::champion_item_fit::ChampionItemOverrideLoader::apply(&mut champions[k], overrides);
                k = k + 1;
            }
            assert(cap_views(champions@) =~= caps.map_values(|c: CapabilityView| with_override(c, ov)));
        } else {
            assert(caps.map_values(|c: CapabilityView| with_override(c, ov)) =~= caps);
        }
        let mut equip_refs: Vec<&EquipmentData> = Vec::new();
        let mut e: usize = 0;
        while e < equips.len()
            invariant
                e <= equips@.len(),
                equip_refs@.len() == e,
                forall|q: int| 0 <= q < e ==> *(#[trigger] equip_refs@[q]) == equips@[q],
            decreases equips@.len() - e,
        {
            equip_refs.push(&equips[e]);
            e = e + 1;
        }
        let items = self.item_builder.build_all(&equip_refs);
        let mut hex_refs: Vec<&HexData> = Vec::new();
        let mut h: usize = 0;
        while h < hexes.len()
            invariant
                h <= hexes@.len(),
                hex_refs@.len() == h,
                forall|q: int| 0 <= q < h ==> *(#[trigger] hex_refs@[q]) == hexes@[q],
            decreases hexes@.len() - h,
        {
            hex_refs.push(&hexes[h]);
            h = h + 1;
        }
        let augments = self.augment_builder.build_all(&hex_refs);
        let trait_profiles = self.trait_builder.build_all(traits);
        let items_with_tags = count_tagged_items(&items);
        let augments_with_tags = count_tagged_augments(&augments);
        let traits_with_tags = count_tagged_traits(&trait_profiles);
        proof {
            lemma_items_tagged_bound(items@.map_values(|x: ItemValueProfile| x@));
        }
        let coverage = KnowledgeCoverageReport {
            champions: CategoryCoverage {
                total: champions.len(),
                tagged: report.with_role,
                low_confidence: report.low_confidence.len(),
                needs_override: report.needs_override.len(),
                unknown_terms: report.unknown_tags,
            },
            items: CategoryCoverage {
                total: items.len(),
                tagged: items_with_tags,
                low_confidence: items.len() - items_with_tags,
                needs_override: 0,
                unknown_terms: Vec::new(),
            },
            augments: CategoryCoverage {
                total: augments.len(),
                tagged: augments_with_tags,
                low_confidence: 0,
                needs_override: 0,
                unknown_terms: Vec::new(),
            },
            traits: CategoryCoverage {
                total: trait_profiles.len(),
                tagged: traits_with_tags,
                low_confidence: 0,
                needs_override: 0,
                unknown_terms: Vec::new(),
            },
        };
        KnowledgeBase {
            version: owned("S18.1"),
            champions,
            items,
            augments,
            traits: trait_profiles,
            coverage,
        }
    }
}

proof fn lemma_items_tagged_bound(p: Seq<ItemProfileView>)
    ensures
        items_tagged(p) <= p.len(),
    decreases p.len(),
{
    if p.len() > 0 {
        lemma_items_tagged_bound(p.drop_last());
    }
}

fn clone_kw_table(t: &Vec<(String, Vec<String>)>) -> (r: Vec<(String, Vec<String>)>)
    ensures
        kw_table(r@) == kw_table(t@),
{
    let mut r: Vec<(String, Vec<String>)> = Vec::new();
    let mut i: usize = 0;
    while i < t.len()
        invariant
            i <= t@.len(),
            kw_table(r@) == kw_table(t@).subrange(0, i as int),
        decreases t@.len() - i,
    {
        let e = (t[i].0.clone(), clone_strings(&t[i].1));
        let ghost before = kw_table(r@);
        r.push(e);
        assert(kw_table(r@) =~= before.push((e.0@, views(e.1@))));
        i = i + 1;
        assert(kw_table(r@) =~= kw_table(t@).subrange(0, i as int));
    }
    assert(kw_table(t@).subrange(0, i as int) =~= kw_table(t@));
    r
}

/// A copy of keyword tables.
pub fn clone_keywords(k: &KnowledgeKeywords) -> (r: KnowledgeKeywords)
    ensures
        r@ == k@,
{
    KnowledgeKeywords {
        version: k.version.clone(),
        damage_types: clone_kw_table(&k.damage_types),
        cast_patterns: clone_kw_table(&k.cast_patterns),
        attack_patterns: clone_kw_table(&k.attack_patterns),
        effect_tags: clone_kw_table(&k.effect_tags),
        conflict_groups: clone_kw_table(&k.conflict_groups),
        damage_type_item_fit: clone_kw_table(&k.damage_type_item_fit),
    }
}

} // verus!
