//! The integer components of a lineup's fit to the current game. Their
//! weighted sum is taken with the rule pack's weights, outside this library.
//! The round is given as stage × 10 + round (stage 3-5 is 35).
use vstd::prelude::*;
use crate::double_ratio::{f64_percent_trunc, percent_trunc};
use crate::rule_types::{LineupProfile, PlaystyleTag};
use crate::text::{cat, list_has, nat_to_text, owned, views};

verus! {

/// The profile carries the play-style tag.
pub open spec fn styled(p: LineupProfile, t: PlaystyleTag) -> bool {
    p.playstyle_tags@.contains(t)
}

fn has_style(p: &LineupProfile, t: PlaystyleTag) -> (b: bool)
    ensures
        b == styled(*p, t),
{
    let mut i: usize = 0;
    while i < p.playstyle_tags.len()
        invariant
            i <= p.playstyle_tags@.len(),
            forall|k: int| 0 <= k < i ==> p.playstyle_tags@[k] != t,
        decreases p.playstyle_tags@.len() - i,
    {
        if p.playstyle_tags[i] == t {
            assert(p.playstyle_tags@[i as int] == t);
            return true;
        }
        i = i + 1;
    }
    false
}

/// Number of the ids that are among those on hand.
pub open spec fn listed_count(ids: Seq<Seq<char>>, have: Seq<Seq<char>>) -> nat
    decreases ids.len(),
{
    if ids.len() == 0 {
        0
    } else {
        listed_count(ids.drop_last(), have) + if have.contains(ids.last()) {
            1nat
        } else {
            0nat
        }
    }
}

fn count_listed(ids: &Vec<String>, have: &Vec<String>) -> (n: usize)
    ensures
        n == listed_count(views(ids@), views(have@)),
        n <= ids@.len(),
{
    let ghost iv = views(ids@);
    let mut n: usize = 0;
    let mut i: usize = 0;
    while i < ids.len()
        invariant
            iv == views(ids@),
            i <= iv.len(),
            n <= i,
            n == listed_count(iv.subrange(0, i as int), views(have@)),
        decreases iv.len() - i,
    {
        assert(iv.subrange(0, i + 1).drop_last() =~= iv.subrange(0, i as int));
        assert(iv.subrange(0, i + 1).last() == ids@[i as int]@);
        if list_has(have, ids[i].as_str()) {
            n = n + 1;
        }
        i = i + 1;
    }
    assert(iv.subrange(0, i as int) =~= iv);
    n
}

/// Percent of three heroes hit, as `(hits as f64 / 3.0 * 100.0).min(100.0)`
/// truncates it.
pub open spec fn hit_percent(hits: int) -> int {
    if hits >= 3 {
        100
    } else {
        f64_percent_trunc(hits, 3)
    }
}

/// Hero hits: of the final and the early heroes, those on board.
pub open spec fn hero_hits(p: LineupProfile, heroes: Seq<Seq<char>>) -> nat {
    listed_count(views(p.final_hero_ids@), heroes) + listed_count(views(p.early_hero_ids@), heroes)
}

/// The champion hit score and its reason: the share of three heroes hit,
/// at most 100.
pub fn champion_hit(profile: &LineupProfile, heroes: &Vec<String>, reasons: &mut Vec<String>) -> (s: i32)
    requires
        profile.final_hero_ids@.len() + profile.early_hero_ids@.len() <= usize::MAX,
    ensures
        s == hit_percent(hero_hits(*profile, views(heroes@)) as int),
        views(final(reasons)@) == if hero_hits(*profile, views(heroes@)) > 0 {
            views(old(reasons)@).push(
                "英雄命中 "@ + crate::text::int_text(hero_hits(*profile, views(heroes@)) as int) + " 个"@,
            )
        } else {
            views(old(reasons)@)
        },
{
    let f = count_listed(&profile.final_hero_ids, heroes);
    let e = count_listed(&profile.early_hero_ids, heroes);
    let total = f + e;
    if total > 0 {
        let mut line = cat("英雄命中 ", nat_to_text(total as u64).as_str());
        crate::text::push_str(&mut line, " 个");
        let ghost before = views(reasons@);
        reasons.push(line);
        assert(views(reasons@) =~= before.push(line@));
    }
    if total >= 3 {
        100
    } else {
        percent_trunc(total as u64, 3)
    }
}

/// The augment fit: 50 with no augment, 90 when one is recommended, 70 when
/// one is a replacement, else 40.
pub open spec fn augment_fit_spec(p: LineupProfile, augments: Seq<Seq<char>>) -> int {
    if augments.len() == 0 {
        50
    } else if listed_count(views(p.recommended_hex_ids@), augments) > 0 {
        90
    } else if listed_count(views(p.replacement_hex_ids@), augments) > 0 {
        70
    } else {
        40
    }
}

/// The augment fit and its reason.
pub fn augment_fit(profile: &LineupProfile, augments: &Vec<String>, reasons: &mut Vec<String>) -> (s: i32)
    ensures
        s == augment_fit_spec(*profile, views(augments@)),
        views(final(reasons)@) == if s == 90 {
            views(old(reasons)@).push(
                "海克斯命中推荐 "@ + crate::text::int_text(
                    listed_count(views(profile.recommended_hex_ids@), views(augments@)) as int,
                ),
            )
        } else if s == 70 {
            views(old(reasons)@).push(
                "海克斯命中备选 "@ + crate::text::int_text(
                    listed_count(views(profile.replacement_hex_ids@), views(augments@)) as int,
                ),
            )
        } else {
            views(old(reasons)@)
        },
{
    if augments.len() == 0 {
        return 50;
    }
    let rec = count_listed(&profile.recommended_hex_ids, augments);
    if rec > 0 {
        let line = cat("海克斯命中推荐 ", nat_to_text(rec as u64).as_str());
        let ghost before = views(reasons@);
        reasons.push(line);
        assert(views(reasons@) =~= before.push(line@));
        return 90;
    }
    let rep = count_listed(&profile.replacement_hex_ids, augments);
    if rep > 0 {
        let line = cat("海克斯命中备选 ", nat_to_text(rep as u64).as_str());
        let ghost before = views(reasons@);
        reasons.push(line);
        assert(views(reasons@) =~= before.push(line@));
        return 70;
    }
    40
}

/// The trait fit: 60 when the lineup targets traits and one of its final
/// heroes is on board, else 30.
pub fn trait_fit(profile: &LineupProfile, heroes: &Vec<String>) -> (s: i32)
    ensures
        s == if heroes@.len() > 0 && profile.trait_targets@.len() > 0 && listed_count(
            views(profile.final_hero_ids@),
            views(heroes@),
        ) > 0 {
            60int
        } else {
            30int
        },
{
    if heroes.len() == 0 || profile.trait_targets.len() == 0 {
        return 30;
    }
    if count_listed(&profile.final_hero_ids, heroes) > 0 {
        60
    } else {
        30
    }
}

/// The stage fit: 1-cost reroll lineups fit up to 3-5 (85) and not after
/// 4-0 (20); fast-8 lineups fit from 3-5 at level 7 (80) and before 3-0
/// (60); otherwise 70.
pub open spec fn stage_fit_spec(p: LineupProfile, stage_tenths: int, level: int) -> int {
    let r1 = styled(p, PlaystyleTag::Reroll1Cost);
    let f8 = styled(p, PlaystyleTag::Fast8);
    if r1 && stage_tenths <= 35 {
        85
    } else if r1 && stage_tenths > 40 {
        20
    } else if f8 && stage_tenths >= 35 && level >= 7 {
        80
    } else if f8 && stage_tenths < 30 {
        60
    } else {
        70
    }
}

/// The stage fit.
pub fn stage_fit(profile: &LineupProfile, stage_tenths: i32, level: i32) -> (s: i32)
    ensures
        s == stage_fit_spec(*profile, stage_tenths as int, level as int),
{
    let r1 = has_style(profile, PlaystyleTag::Reroll1Cost);
    let f8 = has_style(profile, PlaystyleTag::Fast8);
    if r1 && stage_tenths <= 35 {
        85
    } else if r1 && stage_tenths > 40 {
        20
    } else if f8 && stage_tenths >= 35 && level >= 7 {
        80
    } else if f8 && stage_tenths < 30 {
        60
    } else {
        70
    }
}

/// The economy fit: fast-9 lineups want 40 gold (85) and suffer under 20
/// (30); otherwise 75 from 30 gold, 50 from 10, else 30.
pub fn economy_fit(profile: &LineupProfile, gold: i32) -> (s: i32)
    ensures
        s == if styled(*profile, PlaystyleTag::Fast9) && gold >= 40 {
            85int
        } else if styled(*profile, PlaystyleTag::Fast9) && gold < 20 {
            30int
        } else if gold >= 30 {
            75int
        } else if gold >= 10 {
            50int
        } else {
            30int
        },
{
    let f9 = has_style(profile, PlaystyleTag::Fast9);
    if f9 && gold >= 40 {
        85
    } else if f9 && gold < 20 {
        30
    } else if gold >= 30 {
        75
    } else if gold >= 10 {
        50
    } else {
        30
    }
}

/// Health safety with its reason or risk: 20 under 30 health, 50 under 50,
/// 90 from 80, else 70.
pub fn health_safety(hp: i32, reasons: &mut Vec<String>, risks: &mut Vec<String>) -> (s: i32)
    ensures
        s == if hp < 30 {
            20int
        } else if hp < 50 {
            50int
        } else if hp >= 80 {
            90int
        } else {
            70int
        },
        views(final(risks)@) == if hp < 30 {
            views(old(risks)@).push("血量危险"@)
        } else if hp < 50 {
            views(old(risks)@).push("血量偏低"@)
        } else {
            views(old(risks)@)
        },
        views(final(reasons)@) == if hp >= 80 {
            views(old(reasons)@).push("血量安全"@)
        } else {
            views(old(reasons)@)
        },
{
    if hp < 30 {
        let ghost before = views(risks@);
        risks.push(owned("血量危险"));
        assert(views(risks@) =~= before.push("血量危险"@));
        return 20;
    }
    if hp < 50 {
        let ghost before = views(risks@);
        risks.push(owned("血量偏低"));
        assert(views(risks@) =~= before.push("血量偏低"@));
        return 50;
    }
    if hp >= 80 {
        let ghost before = views(reasons@);
        reasons.push(owned("血量安全"));
        assert(views(reasons@) =~= before.push("血量安全"@));
        return 90;
    }
    70
}

/// The play-style switch: 50 unless the lineup is enabled by an augment;
/// then 95 with a recommended augment taken, else 30.
pub fn playstyle_switch(profile: &LineupProfile, augments: &Vec<String>, reasons: &mut Vec<String>) -> (s: i32)
    ensures
        s == if !styled(*profile, PlaystyleTag::AugmentEnabled) {
            50int
        } else if listed_count(views(profile.recommended_hex_ids@), views(augments@)) > 0 {
            95int
        } else {
            30int
        },
        views(final(reasons)@) == if s == 95 {
            views(old(reasons)@).push("关键海克斯已激活"@)
        } else {
            views(old(reasons)@)
        },
{
    if !has_style(profile, PlaystyleTag::AugmentEnabled) {
        return 50;
    }
    if count_listed(&profile.recommended_hex_ids, augments) > 0 {
        let ghost before = views(reasons@);
        reasons.push(owned("关键海克斯已激活"));
        assert(views(reasons@) =~= before.push("关键海克斯已激活"@));
        95
    } else {
        30
    }
}

/// Some carry costs five or more.
pub open spec fn has_five_cost_carry(p: LineupProfile) -> bool {
    exists|k: int| 0 <= k < p.carry_costs@.len() && p.carry_costs@[k] >= 5
}

/// The difficulty penalty: 5 for a 3-cost reroll, 10 for fast 9, 5 for strict
/// items, and 8 for a 5-cost carry after 3-0.
pub fn difficulty_penalty(profile: &LineupProfile, stage_tenths: i32) -> (s: i32)
    ensures
        s == (if styled(*profile, PlaystyleTag::Reroll3Cost) {
            5int
        } else {
            0int
        }) + (if styled(*profile, PlaystyleTag::Fast9) {
            10int
        } else {
            0int
        }) + (if styled(*profile, PlaystyleTag::ItemStrict) {
            5int
        } else {
            0int
        }) + (if has_five_cost_carry(*profile) && stage_tenths > 30 {
            8int
        } else {
            0int
        }),
{
    let mut penalty: i32 = 0;
    if has_style(profile, PlaystyleTag::Reroll3Cost) {
        penalty = penalty + 5;
    }
    if has_style(profile, PlaystyleTag::Fast9) {
        penalty = penalty + 10;
    }
    if has_style(profile, PlaystyleTag::ItemStrict) {
        penalty = penalty + 5;
    }
    let mut five = false;
    let mut i: usize = 0;
    while i < profile.carry_costs.len()
        invariant
            i <= profile.carry_costs@.len(),
            five == exists|k: int| 0 <= k < i && profile.carry_costs@[k] >= 5,
        decreases profile.carry_costs@.len() - i,
    {
        if profile.carry_costs[i] >= 5 {
            five = true;
        }
        i = i + 1;
    }
    if five && stage_tenths > 30 {
        penalty = penalty + 8;
    }
    penalty
}

} // verus!
