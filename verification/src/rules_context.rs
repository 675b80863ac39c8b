//! The rules context of a lineup: the lineup card resolved against the game
//! data (hero, item and augment names, trait summaries) into the stable input
//! of the rules and of the language model.
use vstd::prelude::*;
use crate::data_types::{
    AugmentsContext, EquipRef, EquipmentContext, HexRef, LineupCardData, LineupContextInfo, LineupPieceData,
    ModeContextInfo, RuleEquipmentSnapshot, RuleHeroSnapshot, RuleHexSnapshot, RuleTraitSnapshot, TraitContactData,
};
use crate::game_data_index::{
    contact_active, contact_summaries, counts_fit, piece_summaries, piece_traits, sorted_summaries, summary_views,
    trim_text, trimmed, GameDataIndex, TraitSummaryView,
};
use crate::json::{JsonValue, JsonView};
use crate::keyed::{keys_of, lookup};
use crate::text::{clone_strings, owned, parse_i32, parse_i32_spec, str_eq, views};

verus! {

/// Builds rule contexts.
pub struct RulesContextBuilder;

pub struct ModeInfoView {
    pub id: Seq<char>,
    pub name: Seq<char>,
    pub season: Seq<char>,
    pub capabilities: Seq<Seq<char>>,
}

impl View for ModeContextInfo {
    type V = ModeInfoView;

    open spec fn view(&self) -> ModeInfoView {
        ModeInfoView {
            id: self.id@,
            name: self.name@,
            season: self.season@,
            capabilities: views(self.capabilities@),
        }
    }
}

/// The supported modes, in order.
pub open spec fn supported_mode_infos() -> Seq<ModeInfoView> {
    seq![
        ModeInfoView {
            id: "17"@,
            name: "星神"@,
            season: "S18"@,
            capabilities: seq!["standardLineup"@, "godRewards"@, "transitionContacts"@],
        },
        ModeInfoView {
            id: "16"@,
            name: "英雄联盟传奇"@,
            season: "S18"@,
            capabilities: seq!["standardLineup"@, "unlockTasks"@, "transitionContacts"@],
        },
        ModeInfoView {
            id: "4"@,
            name: "天选福星"@,
            season: "S18"@,
            capabilities: seq!["standardLineup"@, "chosenMechanics"@, "transitionContacts"@],
        },
    ]
}

/// The information of a mode: the supported mode with that id, else an
/// unknown mode of the current season with no capabilities.
pub open spec fn mode_info_spec(mode: Seq<char>) -> ModeInfoView {
    if mode == "17"@ {
        supported_mode_infos()[0]
    } else if mode == "16"@ {
        supported_mode_infos()[1]
    } else if mode == "4"@ {
        supported_mode_infos()[2]
    } else {
        ModeInfoView { id: mode, name: "未知模式"@, season: "S18"@, capabilities: seq![] }
    }
}

fn info(id: &str, name: &str, c1: &str, c2: &str, c3: &str) -> (r: ModeContextInfo)
    ensures
        r@ == (ModeInfoView { id: id@, name: name@, season: "S18"@, capabilities: seq![c1@, c2@, c3@] }),
{
    let caps = vec![owned(c1), owned(c2), owned(c3)];
    assert(views(caps@) =~= seq![c1@, c2@, c3@]);
    ModeContextInfo { id: owned(id), name: owned(name), season: owned("S18"), capabilities: caps }
}

impl RulesContextBuilder {
    /// The information of a mode.
    pub fn mode_info(mode: &str) -> (r: ModeContextInfo)
        ensures
            r@ == mode_info_spec(mode@),
    {
        if str_eq(mode, "17") {
            info("17", "星神", "standardLineup", "godRewards", "transitionContacts")
        } else if str_eq(mode, "16") {
            info("16", "英雄联盟传奇", "standardLineup", "unlockTasks", "transitionContacts")
        } else if str_eq(mode, "4") {
            info("4", "天选福星", "standardLineup", "chosenMechanics", "transitionContacts")
        } else {
            let r = ModeContextInfo {
                id: owned(mode),
                name: owned("未知模式"),
                season: owned("S18"),
                capabilities: Vec::new(),
            };
            assert(r@.capabilities =~= Seq::<Seq<char>>::empty());
            r
        }
    }

    /// Every supported mode, in order.
    pub fn supported_modes() -> (r: Vec<ModeContextInfo>)
        ensures
            r@.map_values(|m: ModeContextInfo| m@) == supported_mode_infos(),
    {
        let r = vec![
            info("17", "星神", "standardLineup", "godRewards", "transitionContacts"),
            info("16", "英雄联盟传奇", "standardLineup", "unlockTasks", "transitionContacts"),
            info("4", "天选福星", "standardLineup", "chosenMechanics", "transitionContacts"),
        ];
        assert(r@.map_values(|m: ModeContextInfo| m@) =~= supported_mode_infos());
        r
    }
}


// ---------------------------------------------------------------------------
// The context of a lineup
// ---------------------------------------------------------------------------

/// Mode-specific data of a lineup: its god rewards, its unlock tasks and its
/// chosen trait, as JSON objects.
#[derive(Debug, Clone)]
pub struct ModeSpecificContext {
    pub god_rewards: Vec<JsonValue>,
    pub unlock_tasks: Vec<JsonValue>,
    pub chosen: Option<JsonValue>,
}

/// The rules context of a lineup.
#[derive(Debug, Clone)]
pub struct RulesContextOutput {
    pub mode: ModeContextInfo,
    pub lineup: LineupContextInfo,
    pub final_heroes: Vec<RuleHeroSnapshot>,
    pub traits: Vec<RuleTraitSnapshot>,
    pub augments: AugmentsContext,
    pub equipment: EquipmentContext,
    pub mode_specific: ModeSpecificContext,
    /// The non-blank strategy texts, keyed by their field name, in a fixed
    /// order.
    pub strategy_texts: Vec<(String, String)>,
}

pub struct HeroSnapshotView {
    pub id: Seq<char>,
    pub name: Seq<char>,
    pub cost: i32,
    pub picture: Seq<char>,
    pub position: Seq<char>,
    pub is_carry: bool,
    pub equipment_ids: Seq<Seq<char>>,
    pub equipment_names: Seq<Seq<char>>,
}

impl View for RuleHeroSnapshot {
    type V = HeroSnapshotView;

    open spec fn view(&self) -> HeroSnapshotView {
        HeroSnapshotView {
            id: self.id@,
            name: self.name@,
            cost: self.cost,
            picture: self.picture@,
            position: self.position@,
            is_carry: self.is_carry,
            equipment_ids: views(self.equipment_ids@),
            equipment_names: views(self.equipment_names@),
        }
    }
}

pub struct HexSnapshotView {
    pub id: Seq<char>,
    pub name: Seq<char>,
    pub level: i32,
    pub desc: Seq<char>,
    pub icon: Seq<char>,
}

impl View for RuleHexSnapshot {
    type V = HexSnapshotView;

    open spec fn view(&self) -> HexSnapshotView {
        HexSnapshotView { id: self.id@, name: self.name@, level: self.level, desc: self.desc@, icon: self.icon@ }
    }
}

/// An item as id, name, type and picture.
pub open spec fn equipment_snapshot_view(e: RuleEquipmentSnapshot) -> (Seq<char>, Seq<char>, Seq<char>, Seq<char>) {
    (e.id@, e.name@, e.equip_type@, e.picture@)
}

/// The name of an item: its configured name, else its id.
pub open spec fn item_name(gd: Option<GameDataIndex>, id: Seq<char>) -> Seq<char> {
    match gd {
        Some(g) => match lookup(keys_of(g.equip_names@), id) {
            Some(n) => n@,
            None => id,
        },
        None => id,
    }
}

/// A final hero resolved against the game data: the hero's name, cost and
/// picture where it is known (its id, 0 and nothing otherwise), and the
/// names of its items.
pub open spec fn hero_snapshot(p: LineupPieceData, gd: Option<GameDataIndex>) -> HeroSnapshotView {
    let hero = match gd {
        Some(g) => lookup(keys_of(g.heroes_by_id@), p.hero_id@),
        None => None,
    };
    HeroSnapshotView {
        id: p.hero_id@,
        name: match hero {
            Some(h) => h.name@,
            None => p.hero_id@,
        },
        cost: match hero {
            Some(h) => h.cost,
            None => 0,
        },
        picture: match hero {
            Some(h) => h.picture@,
            None => seq![],
        },
        position: p.location_key@,
        is_carry: p.is_carry_hero,
        equipment_ids: views(p.equipment_ids@),
        equipment_names: views(p.equipment_ids@).map_values(|e: Seq<char>| item_name(gd, e)),
    }
}

/// An item of the order resolved against the game data.
pub open spec fn equipment_snapshot(id: Seq<char>, gd: Option<GameDataIndex>) -> (Seq<char>, Seq<char>, Seq<char>, Seq<char>) {
    match gd {
        Some(g) => match lookup(keys_of(g.equipment_by_id@), id) {
            Some(e) => (id, e.name@, e.equip_type@, e.picture@),
            None => (id, id, seq![], seq![]),
        },
        None => (id, id, seq![], seq![]),
    }
}

/// An augment resolved against the game data; its level is its configured
/// level read as a number, 0 where it is not one.
pub open spec fn hex_snapshot(id: Seq<char>, gd: Option<GameDataIndex>) -> HexSnapshotView {
    match gd {
        Some(g) => match lookup(keys_of(g.hexes_by_id@), id) {
            Some(h) => HexSnapshotView {
                id,
                name: h.name@,
                level: match parse_i32_spec(h.level@) {
                    Some(v) => v,
                    None => 0,
                },
                desc: h.desc@,
                icon: h.icon@,
            },
            None => HexSnapshotView { id, name: id, level: 0, desc: seq![], icon: seq![] },
        },
        None => HexSnapshotView { id, name: id, level: 0, desc: seq![], icon: seq![] },
    }
}

/// The strategy texts that are not blank, under their field names, in the
/// order early info, roll time, positioning, enemies, augments, items.
pub open spec fn strategy_entries(d: crate::data_types::LineupDetailData) -> Seq<(Seq<char>, Seq<char>)> {
    let e = |k: Seq<char>, v: Seq<char>|
        if trimmed(v).len() > 0 {
            seq![(k, v)]
        } else {
            Seq::<(Seq<char>, Seq<char>)>::empty()
        };
    e("earlyInfo"@, d.early_info@) + e("dTime"@, d.d_time@) + e("locationInfo"@, d.location_info@) + e(
        "enemyInfo"@,
        d.enemy_info@,
    ) + e("hexInfo"@, d.hex_info@) + e("equipmentInfo"@, d.equipment_info@)
}

/// A god reward as the object `{god_id, stage, wish_ids}`.
pub open spec fn god_reward_json(g: crate::data_types::GodRewardData) -> JsonView {
    JsonView::Object(
        seq![
            ("god_id"@, JsonView::Str(g.god_id@)),
            ("stage"@, JsonView::Int(g.stage as i64)),
            ("wish_ids"@, JsonView::Array(views(g.wish_ids@).map_values(|w: Seq<char>| JsonView::Str(w)))),
        ],
    )
}

/// An unlock task as the object `{hero_id, task_id}`.
pub open spec fn unlock_task_json(t: crate::data_types::UnlockTaskData) -> JsonView {
    JsonView::Object(seq![("hero_id"@, JsonView::Str(t.hero_id@)), ("task_id"@, JsonView::Str(t.task_id@))])
}

/// The chosen trait as the object `{id, type}`.
pub open spec fn chosen_json(c: TraitContactData) -> JsonView {
    JsonView::Object(seq![("id"@, JsonView::Str(c.id@)), ("type"@, JsonView::Str(c.contact_type@))])
}

/// Whether some official trait count of the lineup is active, so that the
/// trait summaries come from the official counts.
pub open spec fn has_active_contact(contacts: Seq<TraitContactData>) -> bool {
    exists|j: int| 0 <= j < contacts.len() && contact_active(#[trigger] contacts[j])
}

/// The trait summaries of the context: none without game data, else those
/// of the official counts when one is active, else those counted from the
/// final heroes, by the summaries' order.
pub open spec fn context_traits(card: LineupCardData, gd: Option<GameDataIndex>, traits: Seq<TraitSummaryView>) -> bool {
    match gd {
        Some(g) => if has_active_contact(card.detail.official_traits@) {
            sorted_summaries(contact_summaries(g.traits@, card.detail.official_traits@), traits)
        } else {
            sorted_summaries(piece_summaries(g.traits@, g.heroes_by_id@, card.detail.final_heroes@), traits)
        },
        None => traits.len() == 0,
    }
}

/// `refs` are the augments `ids` resolved: id, name and level of each.
pub open spec fn hex_refs_of(refs: Seq<HexRef>, ids: Seq<String>, gd: Option<GameDataIndex>) -> bool {
    &&& refs.len() == ids.len()
    &&& forall|i: int|
        0 <= i < ids.len() ==> {
            let h = hex_snapshot(ids[i]@, gd);
            (#[trigger] refs[i]).id@ == h.id && refs[i].name@ == h.name && refs[i].level == h.level
        }
}

/// `refs` are the items `ids` resolved: id and name of each.
pub open spec fn equip_refs_of(refs: Seq<EquipRef>, ids: Seq<String>, gd: Option<GameDataIndex>) -> bool {
    &&& refs.len() == ids.len()
    &&& forall|i: int|
        0 <= i < ids.len() ==> {
            let e = equipment_snapshot(ids[i]@, gd);
            (#[trigger] refs[i]).id@ == e.0 && refs[i].name@ == e.1
        }
}

/// `out` is the rules context of `card` in `mode` with the game data `gd`.
pub open spec fn is_rules_context(card: LineupCardData, mode: Seq<char>, gd: Option<GameDataIndex>, out: RulesContextOutput) -> bool {
    let d = card.detail;
    &&& out.mode@ == mode_info_spec(mode)
    &&& out.lineup.id@ == card.id@ && out.lineup.name@ == card.name@ && out.lineup.author@ == card.author@
    &&& out.lineup.quality@ == card.quality@ && views(out.lineup.tags@) == views(card.tags@)
    &&& out.final_heroes@.len() == d.final_heroes@.len()
    &&& forall|i: int|
        0 <= i < d.final_heroes@.len() ==> (#[trigger] out.final_heroes@[i])@ == hero_snapshot(d.final_heroes@[i], gd)
    &&& context_traits(card, gd, summary_views(out.traits@))
    &&& hex_refs_of(out.augments.recommended@, d.recommended_hex_ids@, gd)
    &&& hex_refs_of(out.augments.replacement@, d.replacement_hex_ids@, gd)
    &&& equip_refs_of(out.equipment.order@, d.equipment_order_ids@, gd)
    &&& out.mode_specific.god_rewards@.map_values(|v: JsonValue| v@) == d.god_rewards@.map_values(
        |g: crate::data_types::GodRewardData| god_reward_json(g),
    )
    &&& out.mode_specific.unlock_tasks@.map_values(|v: JsonValue| v@) == d.unlock_tasks@.map_values(
        |t: crate::data_types::UnlockTaskData| unlock_task_json(t),
    )
    &&& match d.chosen_contact {
        Some(c) => out.mode_specific.chosen matches Some(v) && v@ == chosen_json(c),
        None => out.mode_specific.chosen is None,
    }
    &&& out.strategy_texts@.map_values(|e: (String, String)| (e.0@, e.1@)) == strategy_entries(d)
}

fn item_name_of(gd: Option<&GameDataIndex>, id: &String) -> (r: String)
    ensures
        r@ == item_name(
            match gd {
                Some(g) => Some(*g),
                None => None,
            },
            id@,
        ),
{
    match gd {
        Some(g) => g.equip_name(id.as_str()),
        None => id.clone(),
    }
}

fn hero_snapshot_of(p: &LineupPieceData, gd: Option<&GameDataIndex>) -> (r: RuleHeroSnapshot)
    ensures
        r@ == hero_snapshot(
            *p,
            match gd {
                Some(g) => Some(*g),
                None => None,
            },
        ),
{
    let ghost g = match gd {
        Some(g) => Some(*g),
        None => None,
    };
    let hero = match gd {
        Some(x) => x.hero(p.hero_id.as_str()),
        None => None,
    };
    let mut names: Vec<String> = Vec::new();
    let mut i: usize = 0;
    while i < p.equipment_ids.len()
        invariant
            i <= p.equipment_ids@.len(),
            g == match gd {
                Some(x) => Some(*x),
                None => None::<GameDataIndex>,
            },
            names@.len() == i,
            forall|k: int| 0 <= k < i ==> (#[trigger] names@[k])@ == item_name(g, p.equipment_ids@[k]@),
        decreases p.equipment_ids@.len() - i,
    {
        names.push(item_name_of(gd, &p.equipment_ids[i]));
        i = i + 1;
    }
    assert(views(names@) =~= views(p.equipment_ids@).map_values(|e: Seq<char>| item_name(g, e)));
    let r = RuleHeroSnapshot {
        id: p.hero_id.clone(),
        name: match hero {
            Some(h) => h.name.clone(),
            None => p.hero_id.clone(),
        },
        cost: match hero {
            Some(h) => h.cost,
            None => 0,
        },
        picture: match hero {
            Some(h) => h.picture.clone(),
            None => String::new(),
        },
        position: p.location_key.clone(),
        is_carry: p.is_carry_hero,
        equipment_ids: clone_strings(&p.equipment_ids),
        equipment_names: names,
    };
    assert(r@.picture == hero_snapshot(*p, g).picture);
    r
}

fn hex_snapshot_of(id: &String, gd: Option<&GameDataIndex>) -> (r: RuleHexSnapshot)
    ensures
        r@ == hex_snapshot(
            id@,
            match gd {
                Some(g) => Some(*g),
                None => None,
            },
        ),
{
    let hex = match gd {
        Some(x) => x.hex(id.as_str()),
        None => None,
    };
    match hex {
        Some(h) => RuleHexSnapshot {
            id: id.clone(),
            name: h.name.clone(),
            level: match parse_i32(h.level.as_str()) {
                Some(v) => v,
                None => 0,
            },
            desc: h.desc.clone(),
            icon: h.icon.clone(),
        },
        None => {
            let r = RuleHexSnapshot { id: id.clone(), name: id.clone(), level: 0, desc: String::new(), icon: String::new() };
            assert(r@.desc =~= Seq::<char>::empty());
            r
        },
    }
}

fn hex_refs(ids: &Vec<String>, gd: Option<&GameDataIndex>) -> (r: Vec<HexRef>)
    ensures
        hex_refs_of(
            r@,
            ids@,
            match gd {
                Some(g) => Some(*g),
                None => None,
            },
        ),
{
    let ghost g = match gd {
        Some(x) => Some(*x),
        None => None::<GameDataIndex>,
    };
    let mut r: Vec<HexRef> = Vec::new();
    let mut i: usize = 0;
    while i < ids.len()
        invariant
            i <= ids@.len(),
            g == match gd {
                Some(x) => Some(*x),
                None => None::<GameDataIndex>,
            },
            r@.len() == i,
            forall|k: int|
                0 <= k < i ==> {
                    let h = hex_snapshot(ids@[k]@, g);
                    (#[trigger] r@[k]).id@ == h.id && r@[k].name@ == h.name && r@[k].level == h.level
                },
        decreases ids@.len() - i,
    {
        let s = hex_snapshot_of(&ids[i], gd);
        r.push(HexRef { id: s.id, name: s.name, level: s.level });
        i = i + 1;
    }
    r
}

fn equip_refs(ids: &Vec<String>, gd: Option<&GameDataIndex>) -> (r: Vec<EquipRef>)
    ensures
        equip_refs_of(
            r@,
            ids@,
            match gd {
                Some(g) => Some(*g),
                None => None,
            },
        ),
{
    let ghost g = match gd {
        Some(x) => Some(*x),
        None => None::<GameDataIndex>,
    };
    let mut r: Vec<EquipRef> = Vec::new();
    let mut i: usize = 0;
    while i < ids.len()
        invariant
            i <= ids@.len(),
            g == match gd {
                Some(x) => Some(*x),
                None => None::<GameDataIndex>,
            },
            r@.len() == i,
            forall|k: int|
                0 <= k < i ==> {
                    let e = equipment_snapshot(ids@[k]@, g);
                    (#[trigger] r@[k]).id@ == e.0 && r@[k].name@ == e.1
                },
        decreases ids@.len() - i,
    {
        let id = &ids[i];
        let item = match gd {
            Some(x) => x.equipment(id.as_str()),
            None => None,
        };
        let name = match item {
            Some(e) => e.name.clone(),
            None => id.clone(),
        };
        r.push(EquipRef { id: id.clone(), name });
        i = i + 1;
    }
    r
}

fn text_json(s: &String) -> (r: JsonValue)
    ensures
        r@ == JsonView::Str(s@),
{
    JsonValue::Str(s.clone())
}

fn god_reward_value(g: &crate::data_types::GodRewardData) -> (r: JsonValue)
    ensures
        r@ == god_reward_json(*g),
{
    let mut wishes: Vec<JsonValue> = Vec::new();
    let mut i: usize = 0;
    while i < g.wish_ids.len()
        invariant
            i <= g.wish_ids@.len(),
            wishes@.len() == i,
            forall|k: int| 0 <= k < i ==> (#[trigger] wishes@[k])@ == JsonView::Str(g.wish_ids@[k]@),
        decreases g.wish_ids@.len() - i,
    {
        wishes.push(text_json(&g.wish_ids[i]));
        i = i + 1;
    }
    let ghost wv = wishes@.map_values(|v: JsonValue| v@);
    assert(wv =~= views(g.wish_ids@).map_values(|w: Seq<char>| JsonView::Str(w)));
    let arr = JsonValue::Array(wishes);
    assert(arr@ == JsonView::Array(wv)) by {
        reveal_with_fuel(crate::json::json_view, 2);
        assert(arr@->Array_0 =~= wv);
    }
    let id_v = text_json(&g.god_id);
    let stage_v = JsonValue::Int(g.stage as i64);
    let members = vec![(owned("god_id"), id_v), (owned("stage"), stage_v), (owned("wish_ids"), arr)];
    let r = JsonValue::Object(members);
    proof {
        reveal_with_fuel(crate::json::json_view, 2);
        let items = r@->Object_0;
        assert(items[0] == (members@[0].0@, members@[0].1@));
        assert(items[1] == (members@[1].0@, members@[1].1@));
        assert(items[2] == (members@[2].0@, members@[2].1@));
        assert(items =~= god_reward_json(*g)->Object_0);
    }
    r
}

fn unlock_task_value(t: &crate::data_types::UnlockTaskData) -> (r: JsonValue)
    ensures
        r@ == unlock_task_json(*t),
{
    let r = JsonValue::Object(vec![(owned("hero_id"), text_json(&t.hero_id)), (owned("task_id"), text_json(&t.task_id))]);
    assert(r@->Object_0 =~= unlock_task_json(*t)->Object_0);
    r
}

fn push_strategy(v: &mut Vec<(String, String)>, key: &str, value: &String)
    ensures
        final(v)@.map_values(|e: (String, String)| (e.0@, e.1@)) == old(v)@.map_values(
            |e: (String, String)| (e.0@, e.1@),
        ) + if trimmed(value@).len() > 0 {
            seq![(key@, value@)]
        } else {
            Seq::<(Seq<char>, Seq<char>)>::empty()
        },
{
    let ghost before = v@.map_values(|e: (String, String)| (e.0@, e.1@));
    if trim_text(value.as_str()).unicode_len() > 0 {
        v.push((owned(key), value.clone()));
        assert(v@.map_values(|e: (String, String)| (e.0@, e.1@)) =~= before.push((key@, value@)));
    } else {
        assert(v@.map_values(|e: (String, String)| (e.0@, e.1@)) =~= before + Seq::<(Seq<char>, Seq<char>)>::empty());
    }
}

impl RulesContextBuilder {
    /// The rules context of a lineup card in a mode, resolved against the
    /// game data where it is given.
    #[verifier::spinoff_prover]
    pub fn build(card: &LineupCardData, mode: &str, game_data: Option<&GameDataIndex>) -> (r: RulesContextOutput)
        requires
            match game_data {
                Some(g) => has_active_contact(card.detail.official_traits@) || counts_fit(
                    piece_traits(g.heroes_by_id@, card.detail.final_heroes@),
                ),
                None => true,
            },
        ensures
            is_rules_context(
                *card,
                mode@,
                match game_data {
                    Some(g) => Some(*g),
                    None => None,
                },
                r,
            ),
    {
        let ghost g = match game_data {
            Some(x) => Some(*x),
            None => None::<GameDataIndex>,
        };
        let d = &card.detail;
        let mut heroes: Vec<RuleHeroSnapshot> = Vec::new();
        let mut i: usize = 0;
        while i < d.final_heroes.len()
            invariant
                i <= d.final_heroes@.len(),
                d == card.detail,
                g == match game_data {
                    Some(x) => Some(*x),
                    None => None::<GameDataIndex>,
                },
                heroes@.len() == i,
                forall|q: int| 0 <= q < i ==> (#[trigger] heroes@[q])@ == hero_snapshot(d.final_heroes@[q], g),
            decreases d.final_heroes@.len() - i,
        {
            heroes.push(hero_snapshot_of(&d.final_heroes[i], game_data));
            i = i + 1;
        }
        let traits: Vec<RuleTraitSnapshot> = match game_data {
            Some(x) => x.trait_summaries(&d.final_heroes, &d.official_traits),
            None => Vec::new(),
        };
        assert(context_traits(*card, g, summary_views(traits@))) by {
            if g is None {
                assert(summary_views(traits@).len() == 0);
            }
        }
        let recommended = hex_refs(&d.recommended_hex_ids, game_data);
        let replacement = hex_refs(&d.replacement_hex_ids, game_data);
        let order = equip_refs(&d.equipment_order_ids, game_data);
        let mut god_rewards: Vec<JsonValue> = Vec::new();
        let mut k: usize = 0;
        while k < d.god_rewards.len()
            invariant
                k <= d.god_rewards@.len(),
                d == card.detail,
                god_rewards@.len() == k,
                forall|q: int| 0 <= q < k ==> (#[trigger] god_rewards@[q])@ == god_reward_json(d.god_rewards@[q]),
            decreases d.god_rewards@.len() - k,
        {
            god_rewards.push(god_reward_value(&d.god_rewards[k]));
            k = k + 1;
        }
        assert(god_rewards@.map_values(|v: JsonValue| v@) =~= d.god_rewards@.map_values(
            |x: crate::data_types::GodRewardData| god_reward_json(x),
        ));
        let mut tasks: Vec<JsonValue> = Vec::new();
        let mut t: usize = 0;
        while t < d.unlock_tasks.len()
            invariant
                t <= d.unlock_tasks@.len(),
                d == card.detail,
                tasks@.len() == t,
                forall|q: int| 0 <= q < t ==> (#[trigger] tasks@[q])@ == unlock_task_json(d.unlock_tasks@[q]),
            decreases d.unlock_tasks@.len() - t,
        {
            tasks.push(unlock_task_value(&d.unlock_tasks[t]));
            t = t + 1;
        }
        assert(tasks@.map_values(|v: JsonValue| v@) =~= d.unlock_tasks@.map_values(
            |x: crate::data_types::UnlockTaskData| unlock_task_json(x),
        ));
        let chosen = match &d.chosen_contact {
            Some(c) => {
                let v = JsonValue::Object(vec![(owned("id"), text_json(&c.id)), (owned("type"), text_json(&c.contact_type))]);
                assert(v@->Object_0 =~= chosen_json(*c)->Object_0);
                Some(v)
            },
            None => None,
        };
        let mut strategy: Vec<(String, String)> = Vec::new();
        push_strategy(&mut strategy, "earlyInfo", &d.early_info);
        push_strategy(&mut strategy, "dTime", &d.d_time);
        push_strategy(&mut strategy, "locationInfo", &d.location_info);
        push_strategy(&mut strategy, "enemyInfo", &d.enemy_info);
        push_strategy(&mut strategy, "hexInfo", &d.hex_info);
        push_strategy(&mut strategy, "equipmentInfo", &d.equipment_info);
        assert(strategy@.map_values(|e: (String, String)| (e.0@, e.1@)) =~= strategy_entries(*d));
        let lineup = LineupContextInfo {
            id: card.id.clone(),
            name: card.name.clone(),
            author: card.author.clone(),
            quality: card.quality.clone(),
            tags: clone_strings(&card.tags),
        };
        let out = RulesContextOutput {
            mode: Self::mode_info(mode),
            lineup,
            final_heroes: heroes,
            traits,
            augments: AugmentsContext { recommended, replacement },
            equipment: EquipmentContext { order },
            mode_specific: ModeSpecificContext { god_rewards, unlock_tasks: tasks, chosen },
            strategy_texts: strategy,
        };
        assert(is_rules_context(*card, mode@, g, out));
        out
    }
}

} // verus!
