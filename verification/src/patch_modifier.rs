//! Patch-note adjustments of lineup scores: each buff or nerf that touches
//! a lineup moves the matching score component and the total, and is
//! explained among the reasons (gains) or risks (losses).
use vstd::prelude::*;
use crate::knowledge_types::PatchEntry;
use crate::num::clamp;
use crate::rule_types::{LineupProfile, LineupScore};
use crate::text::{cat, clone_strings, int_text, int_to_text, list_has, owned, push_str, str_eq, views};

verus! {

/// The patch-note changes of a version.
#[derive(Debug, Clone, Default)]
pub struct PatchKnowledge {
    pub version: String,
    pub entries: Vec<PatchEntry>,
}

/// Applies patch-note changes to lineup scores.
pub struct PatchModifier;

pub struct ScoreView {
    pub lineup_id: Seq<char>,
    pub name: Seq<char>,
    pub total_score: i32,
    pub base_score: i32,
    pub item_fit_score: i32,
    pub champion_hit_score: i32,
    pub augment_fit_score: i32,
    pub trait_fit_score: i32,
    pub stage_fit_score: i32,
    pub economy_fit_score: i32,
    pub health_safety_score: i32,
    pub playstyle_switch_score: i32,
    pub rival_penalty: i32,
    pub difficulty_penalty: i32,
    pub reasons: Seq<Seq<char>>,
    pub risks: Seq<Seq<char>>,
    pub requires_augment: bool,
}

impl View for LineupScore {
    type V = ScoreView;

    open spec fn view(&self) -> ScoreView {
        ScoreView {
            lineup_id: self.lineup_id@,
            name: self.name@,
            total_score: self.total_score,
            base_score: self.base_score,
            item_fit_score: self.item_fit_score,
            champion_hit_score: self.champion_hit_score,
            augment_fit_score: self.augment_fit_score,
            trait_fit_score: self.trait_fit_score,
            stage_fit_score: self.stage_fit_score,
            economy_fit_score: self.economy_fit_score,
            health_safety_score: self.health_safety_score,
            playstyle_switch_score: self.playstyle_switch_score,
            rival_penalty: self.rival_penalty,
            difficulty_penalty: self.difficulty_penalty,
            reasons: views(self.reasons@),
            risks: views(self.risks@),
            requires_augment: self.requires_augment,
        }
    }
}

// ---------------------------------------------------------------------------
// Model
// ---------------------------------------------------------------------------

/// A change touches a lineup: one of its listed lineups, or, when it lists
/// none, a lineup that uses its target (a hero, item, trait or augment of
/// the lineup, the lineup itself, or any lineup for a system change).
pub open spec fn touches(e: PatchEntry, p: LineupProfile) -> bool {
    let id = e.target_id@;
    let t = e.target_type@;
    if e.affected_lineups@.len() > 0 {
        views(e.affected_lineups@).contains(p.lineup_id@)
    } else if t == "champion"@ {
        views(p.final_hero_ids@).contains(id) || views(p.carry_hero_ids@).contains(id) || views(
            p.tank_hero_ids@,
        ).contains(id) || views(p.early_hero_ids@).contains(id) || views(p.mid_hero_ids@).contains(id)
    } else if t == "item"@ {
        views(p.core_equipment_ids@).contains(id) || views(p.tank_equipment_ids@).contains(id) || views(
            p.equipment_order_ids@,
        ).contains(id)
    } else if t == "trait"@ {
        exists|k: int| 0 <= k < p.trait_targets@.len() && (#[trigger] p.trait_targets@[k]).0@ == id
    } else if t == "augment"@ {
        views(p.recommended_hex_ids@).contains(id) || views(p.replacement_hex_ids@).contains(id)
    } else if t == "lineup"@ {
        id == p.lineup_id@
    } else {
        t == "system"@
    }
}

/// A change moves the score component of its target type, kept within
/// 0-100: heroes, lineups and system changes the base score, items the item
/// fit, traits the trait fit, augments the augment fit.
pub open spec fn moved(s: ScoreView, e: PatchEntry) -> ScoreView {
    let d = e.impact_score as int;
    let t = e.target_type@;
    if t == "champion"@ || t == "lineup"@ || t == "system"@ {
        ScoreView { base_score: clamp(s.base_score + d, 0, 100) as i32, ..s }
    } else if t == "item"@ {
        ScoreView { item_fit_score: clamp(s.item_fit_score + d, 0, 100) as i32, ..s }
    } else if t == "trait"@ {
        ScoreView { trait_fit_score: clamp(s.trait_fit_score + d, 0, 100) as i32, ..s }
    } else if t == "augment"@ {
        ScoreView { augment_fit_score: clamp(s.augment_fit_score + d, 0, 100) as i32, ..s }
    } else {
        s
    }
}

/// A score change written with its sign.
pub open spec fn signed_text(d: int) -> Seq<char> {
    if d >= 0 {
        "+"@ + int_text(d)
    } else {
        int_text(d)
    }
}

/// The explanation of a change: target, change type, signed impact, reason.
pub open spec fn change_line(e: PatchEntry) -> Seq<char> {
    e.target_name@ + " "@ + e.change_type@ + " "@ + signed_text(e.impact_score as int) + "："@ + if e.reason@.len()
        == 0 {
        "版本公告修正"@
    } else {
        e.reason@
    }
}

/// A score with a change applied to its component and explained.
pub open spec fn with_change(s: ScoreView, e: PatchEntry) -> ScoreView {
    let m = moved(s, e);
    if e.impact_score >= 0 {
        ScoreView { reasons: m.reasons.push(change_line(e)), ..m }
    } else {
        ScoreView { risks: m.risks.push(change_line(e)), ..m }
    }
}

/// The score after the changes that touch the lineup, in order, and the sum
/// of their impacts.
pub open spec fn patched(s: ScoreView, p: LineupProfile, entries: Seq<PatchEntry>) -> (ScoreView, int)
    decreases entries.len(),
{
    if entries.len() == 0 {
        (s, 0)
    } else {
        let (r, d) = patched(s, p, entries.drop_last());
        let e = entries.last();
        if touches(e, p) {
            (with_change(r, e), d + e.impact_score)
        } else {
            (r, d)
        }
    }
}

/// The adjusted score: the changes applied, and the total moved by the sum
/// of their impacts, kept within 0-100.
pub open spec fn adjusted_score(s: ScoreView, p: LineupProfile, entries: Seq<PatchEntry>) -> ScoreView {
    let (r, d) = patched(s, p, entries);
    ScoreView { total_score: clamp(r.total_score + d, 0, 100) as i32, ..r }
}

/// The component an entry moves, where it moves one.
pub open spec fn moved_component(s: ScoreView, e: PatchEntry) -> int {
    let t = e.target_type@;
    if t == "champion"@ || t == "lineup"@ || t == "system"@ {
        s.base_score as int
    } else if t == "item"@ {
        s.item_fit_score as int
    } else if t == "trait"@ {
        s.trait_fit_score as int
    } else if t == "augment"@ {
        s.augment_fit_score as int
    } else {
        0
    }
}

/// Every change that touches the lineup is applied within `i32`: the running
/// sum of the impacts and the moved component plus the impact.
pub open spec fn changes_fit(s: ScoreView, p: LineupProfile, entries: Seq<PatchEntry>) -> bool
    decreases entries.len(),
{
    if entries.len() == 0 {
        true
    } else {
        let (r, d) = patched(s, p, entries.drop_last());
        let e = entries.last();
        &&& changes_fit(s, p, entries.drop_last())
        &&& touches(e, p) ==> i32::MIN <= d + e.impact_score <= i32::MAX && i32::MIN <= moved_component(r, e)
            + e.impact_score <= i32::MAX
    }
}

/// The changes that touch the lineup are applied within `i32`, and so is the
/// total moved by their sum.
pub open spec fn patch_fits(s: ScoreView, p: LineupProfile, entries: Seq<PatchEntry>) -> bool {
    &&& changes_fit(s, p, entries)
    &&& i32::MIN <= s.total_score + patched(s, p, entries).1 <= i32::MAX
}

proof fn lemma_changes_fit_prefix(s: ScoreView, p: LineupProfile, entries: Seq<PatchEntry>, n: int)
    requires
        changes_fit(s, p, entries),
        0 <= n <= entries.len(),
    ensures
        changes_fit(s, p, entries.subrange(0, n)),
    decreases entries.len(),
{
    if n < entries.len() {
        assert(entries.drop_last() =~= entries.subrange(0, entries.len() - 1));
        lemma_changes_fit_prefix(s, p, entries.drop_last(), n);
        assert(entries.drop_last().subrange(0, n) =~= entries.subrange(0, n));
    } else {
        assert(entries.subrange(0, n) =~= entries);
    }
}

proof fn lemma_patched_total_score(s: ScoreView, p: LineupProfile, entries: Seq<PatchEntry>)
    ensures
        patched(s, p, entries).0.total_score == s.total_score,
    decreases entries.len(),
{
    if entries.len() > 0 {
        lemma_patched_total_score(s, p, entries.drop_last());
    }
}

// ---------------------------------------------------------------------------
// Code
// ---------------------------------------------------------------------------

fn any_in(id: &str, lists: &[&Vec<String>]) -> (b: bool)
    ensures
        b == exists|i: int| 0 <= i < lists@.len() && views((#[trigger] lists@[i])@).contains(id@),
{
    let mut i: usize = 0;
    while i < lists.len()
        invariant
            i <= lists@.len(),
            forall|j: int| 0 <= j < i ==> !views((#[trigger] lists@[j])@).contains(id@),
        decreases lists@.len() - i,
    {
        if list_has(lists[i], id) {
            return true;
        }
        i = i + 1;
    }
    false
}

fn has_trait_target(profile: &LineupProfile, id: &str) -> (b: bool)
    ensures
        b == exists|k: int| 0 <= k < profile.trait_targets@.len() && (#[trigger] profile.trait_targets@[k]).0@ == id@,
{
    let mut k: usize = 0;
    while k < profile.trait_targets.len()
        invariant
            k <= profile.trait_targets@.len(),
            forall|j: int| 0 <= j < k ==> (#[trigger] profile.trait_targets@[j]).0@ != id@,
        decreases profile.trait_targets@.len() - k,
    {
        if str_eq(profile.trait_targets[k].0.as_str(), id) {
            assert((profile.trait_targets@[k as int]).0@ == id@);
            return true;
        }
        k = k + 1;
    }
    false
}

fn clone_score(s: &LineupScore) -> (r: LineupScore)
    ensures
        r@ == s@,
{
    LineupScore {
        lineup_id: s.lineup_id.clone(),
        name: s.name.clone(),
        total_score: s.total_score,
        base_score: s.base_score,
        item_fit_score: s.item_fit_score,
        champion_hit_score: s.champion_hit_score,
        augment_fit_score: s.augment_fit_score,
        trait_fit_score: s.trait_fit_score,
        stage_fit_score: s.stage_fit_score,
        economy_fit_score: s.economy_fit_score,
        health_safety_score: s.health_safety_score,
        playstyle_switch_score: s.playstyle_switch_score,
        rival_penalty: s.rival_penalty,
        difficulty_penalty: s.difficulty_penalty,
        reasons: clone_strings(&s.reasons),
        risks: clone_strings(&s.risks),
        requires_augment: s.requires_augment,
    }
}

fn clamp_score(x: i32) -> (r: i32)
    ensures
        r == clamp(x as int, 0, 100),
{
    if x < 0 {
        0
    } else if x > 100 {
        100
    } else {
        x
    }
}

impl PatchModifier {
    /// The change touches the lineup.
    pub fn affects_lineup(entry: &PatchEntry, profile: &LineupProfile) -> (b: bool)
        ensures
            b == touches(*entry, *profile),
    {
        if entry.affected_lineups.len() > 0 {
            return list_has(&entry.affected_lineups, profile.lineup_id.as_str());
        }
        let id = entry.target_id.as_str();
        let t = entry.target_type.as_str();
        if str_eq(t, "champion") {
            let lists = [
                &profile.final_hero_ids,
                &profile.carry_hero_ids,
                &profile.tank_hero_ids,
                &profile.early_hero_ids,
                &profile.mid_hero_ids,
            ];
            let b = any_in(id, &lists);
            proof {
                assert(lists@[0]@ == profile.final_hero_ids@);
                assert(lists@[1]@ == profile.carry_hero_ids@);
                assert(lists@[2]@ == profile.tank_hero_ids@);
                assert(lists@[3]@ == profile.early_hero_ids@);
                assert(lists@[4]@ == profile.mid_hero_ids@);
            }
            b
        } else if str_eq(t, "item") {
            let lists = [&profile.core_equipment_ids, &profile.tank_equipment_ids, &profile.equipment_order_ids];
            let b = any_in(id, &lists);
            proof {
                assert(lists@[0]@ == profile.core_equipment_ids@);
                assert(lists@[1]@ == profile.tank_equipment_ids@);
                assert(lists@[2]@ == profile.equipment_order_ids@);
            }
            b
        } else if str_eq(t, "trait") {
            has_trait_target(profile, id)
        } else if str_eq(t, "augment") {
            let lists = [&profile.recommended_hex_ids, &profile.replacement_hex_ids];
            let b = any_in(id, &lists);
            proof {
                assert(lists@[0]@ == profile.recommended_hex_ids@);
                assert(lists@[1]@ == profile.replacement_hex_ids@);
            }
            b
        } else if str_eq(t, "lineup") {
            str_eq(id, profile.lineup_id.as_str())
        } else {
            str_eq(t, "system")
        }
    }

    fn apply_component_delta(score: &mut LineupScore, entry: &PatchEntry)
        requires
            i32::MIN <= moved_component(old(score)@, *entry) + entry.impact_score <= i32::MAX,
        ensures
            final(score)@ == moved(old(score)@, *entry),
    {
        let d = entry.impact_score;
        let t = entry.target_type.as_str();
        if str_eq(t, "champion") || str_eq(t, "lineup") || str_eq(t, "system") {
            score.base_score = clamp_score(score.base_score + d);
        } else if str_eq(t, "item") {
            score.item_fit_score = clamp_score(score.item_fit_score + d);
        } else if str_eq(t, "trait") {
            score.trait_fit_score = clamp_score(score.trait_fit_score + d);
        } else if str_eq(t, "augment") {
            score.augment_fit_score = clamp_score(score.augment_fit_score + d);
        }
    }

    fn append_explanation(score: &mut LineupScore, entry: &PatchEntry)
        ensures
            final(score)@ == (if entry.impact_score >= 0 {
                ScoreView { reasons: old(score)@.reasons.push(change_line(*entry)), ..old(score)@ }
            } else {
                ScoreView { risks: old(score)@.risks.push(change_line(*entry)), ..old(score)@ }
            }),
    {
        let d = entry.impact_score;
        let signed = if d >= 0 {
            cat("+", int_to_text(d as i64).as_str())
        } else {
            int_to_text(d as i64)
        };
        let mut line = cat(entry.target_name.as_str(), " ");
        push_str(&mut line, entry.change_type.as_str());
        push_str(&mut line, " ");
        push_str(&mut line, signed.as_str());
        push_str(&mut line, "：");
        let ghost pre = line@;
        if entry.reason.as_str().is_empty() {
            push_str(&mut line, "版本公告修正");
        } else {
            push_str(&mut line, entry.reason.as_str());
        }
        assert(line@ == change_line(*entry));
        if d >= 0 {
            let ghost before = views(score.reasons@);
            score.reasons.push(line);
            assert(views(score.reasons@) =~= before.push(change_line(*entry)));
        } else {
            let ghost before = views(score.risks@);
            score.risks.push(line);
            assert(views(score.risks@) =~= before.push(change_line(*entry)));
        }
    }

    /// The score adjusted by the changes that touch the lineup.
    pub fn apply_to_score(score: &LineupScore, profile: &LineupProfile, knowledge: &PatchKnowledge) -> (r: LineupScore)
        requires
            patch_fits(score@, *profile, knowledge.entries@),
        ensures
            r@ == adjusted_score(score@, *profile, knowledge.entries@),
    {
        let ghost ev = knowledge.entries@;
        let mut adjusted = clone_score(score);
        let mut total_delta: i32 = 0;
        let mut i: usize = 0;
        while i < knowledge.entries.len()
            invariant
                ev == knowledge.entries@,
                patch_fits(score@, *profile, ev),
                i <= ev.len(),
                (adjusted@, total_delta as int) == patched(score@, *profile, ev.subrange(0, i as int)),
                adjusted@.total_score == score@.total_score,
            decreases ev.len() - i,
        {
            assert(ev.subrange(0, i + 1).drop_last() =~= ev.subrange(0, i as int));
            assert(ev.subrange(0, i + 1).last() == ev[i as int]);
            proof {
                lemma_changes_fit_prefix(score@, *profile, ev, i + 1);
            }
            let entry = &knowledge.entries[i];
            if Self::affects_lineup(entry, profile) {
                total_delta = total_delta + entry.impact_score;
                Self::apply_component_delta(&mut adjusted, entry);
                Self::append_explanation(&mut adjusted, entry);
            }
            i = i + 1;
        }
        assert(ev.subrange(0, i as int) =~= ev);
        proof {
            lemma_patched_total_score(score@, *profile, ev);
        }
        adjusted.total_score = clamp_score(adjusted.total_score + total_delta);
        adjusted
    }

    /// Each score adjusted for the first profile of its lineup; scores
    /// without a profile stay as they are.
    pub fn apply_to_scores(scores: &[LineupScore], profiles: &[LineupProfile], knowledge: &PatchKnowledge) -> (r: Vec<
        LineupScore,
    >)
        requires
            forall|i: int|
                0 <= i < scores@.len() ==> match profile_for(profiles@, (#[trigger] scores@[i]).lineup_id@) {
                    Some(p) => patch_fits(scores@[i]@, p, knowledge.entries@),
                    None => true,
                },
        ensures
            r@.len() == scores@.len(),
            forall|i: int|
                0 <= i < scores@.len() ==> (#[trigger] r@[i])@ == match profile_for(profiles@, scores@[i].lineup_id@) {
                    Some(p) => adjusted_score(scores@[i]@, p, knowledge.entries@),
                    None => scores@[i]@,
                },
    {
        let mut out: Vec<LineupScore> = Vec::new();
        let mut i: usize = 0;
        while i < scores.len()
            invariant
                i <= scores@.len(),
                forall|j: int|
                    0 <= j < scores@.len() ==> match profile_for(profiles@, (#[trigger] scores@[j]).lineup_id@) {
                        Some(p) => patch_fits(scores@[j]@, p, knowledge.entries@),
                        None => true,
                    },
                out@.len() == i,
                forall|j: int|
                    0 <= j < i ==> (#[trigger] out@[j])@ == match profile_for(profiles@, scores@[j].lineup_id@) {
                        Some(p) => adjusted_score(scores@[j]@, p, knowledge.entries@),
                        None => scores@[j]@,
                    },
            decreases scores@.len() - i,
        {
            let s = &scores[i];
            assert(scores@[i as int] == *s);
            let r = match find_profile(profiles, s.lineup_id.as_str()) {
                Some(p) => Self::apply_to_score(s, p, knowledge),
                None => clone_score(s),
            };
            out.push(r);
            i = i + 1;
        }
        out
    }
}

/// The first profile of lineup `id`.
pub open spec fn profile_for(profiles: Seq<LineupProfile>, id: Seq<char>) -> Option<LineupProfile>
    decreases profiles.len(),
{
    if profiles.len() == 0 {
        None
    } else if profiles[0].lineup_id@ == id {
        Some(profiles[0])
    } else {
        profile_for(profiles.drop_first(), id)
    }
}

fn find_profile<'a>(profiles: &'a [LineupProfile], id: &str) -> (r: Option<&'a LineupProfile>)
    ensures
        match r {
            Some(p) => profile_for(profiles@, id@) == Some(*p),
            None => profile_for(profiles@, id@) is None,
        },
{
    let ghost pv = profiles@;
    let mut i: usize = 0;
    assert(pv.subrange(0, pv.len() as int) =~= pv);
    while i < profiles.len()
        invariant
            pv == profiles@,
            i <= pv.len(),
            profile_for(pv, id@) == profile_for(pv.subrange(i as int, pv.len() as int), id@),
        decreases pv.len() - i,
    {
        let ghost rest = pv.subrange(i as int, pv.len() as int);
        assert(rest[0] == pv[i as int]);
        assert(rest.drop_first() =~= pv.subrange(i + 1, pv.len() as int));
        if str_eq(profiles[i].lineup_id.as_str(), id) {
            return Some(&profiles[i]);
        }
        i = i + 1;
    }
    None
}

/// Changes that touch none of a lineup's heroes, items, traits or augments
/// leave its score as it was (a total already within 0-100 included).
pub proof fn lemma_unrelated_changes_keep_score(s: ScoreView, p: LineupProfile, entries: Seq<PatchEntry>)
    requires
        forall|i: int| 0 <= i < entries.len() ==> !touches(#[trigger] entries[i], p),
        0 <= s.total_score <= 100,
    ensures
        patched(s, p, entries) == (s, 0int),
        adjusted_score(s, p, entries) == s,
    decreases entries.len(),
{
    if entries.len() > 0 {
        let rest = entries.drop_last();
        assert forall|i: int| 0 <= i < rest.len() implies !touches(#[trigger] rest[i], p) by {
            assert(rest[i] == entries[i]);
        }
        lemma_unrelated_changes_keep_score(s, p, rest);
        assert(!touches(entries[entries.len() - 1], p));
    }
}

} // verus!
