//! Reroll eligibility: whether a lineup suits rolling for three-star
//! carries now, from its core units on hand, gold, health, rivals and the
//! stage, with the tempo and when to stop or give up.
use vstd::prelude::*;
use crate::rule_types::{LineupProfile, PlaystyleTag, RerollEligibility};
use crate::text::{cat, int_text, int_to_text, list_has, owned, push_str, views};

verus! {

/// Scores reroll eligibility.
pub struct RerollEligibilityScorer;

pub struct EligibilityView {
    pub score: i32,
    pub lineup_id: Seq<char>,
    pub core_cost: i32,
    pub current_core_count: i32,
    pub target_count: i32,
    pub recommended_level: i32,
    pub tempo: Seq<char>,
    pub stop_conditions: Seq<Seq<char>>,
    pub abandon_conditions: Seq<Seq<char>>,
    pub rival_count: i32,
    pub is_recommended: bool,
}

impl View for RerollEligibility {
    type V = EligibilityView;

    open spec fn view(&self) -> EligibilityView {
        EligibilityView {
            score: self.score,
            lineup_id: self.lineup_id@,
            core_cost: self.core_cost,
            current_core_count: self.current_core_count,
            target_count: self.target_count,
            recommended_level: self.recommended_level,
            tempo: self.tempo@,
            stop_conditions: views(self.stop_conditions@),
            abandon_conditions: views(self.abandon_conditions@),
            rival_count: self.rival_count,
            is_recommended: self.is_recommended,
        }
    }
}

/// A reroll play-style tag.
pub open spec fn is_reroll_tag(t: PlaystyleTag) -> bool {
    t == PlaystyleTag::Reroll1Cost || t == PlaystyleTag::Reroll2Cost || t == PlaystyleTag::Reroll3Cost
}

/// A lineup tagged for rerolling.
pub open spec fn is_reroll_lineup(p: LineupProfile) -> bool {
    exists|i: int| 0 <= i < p.playstyle_tags@.len() && is_reroll_tag(#[trigger] p.playstyle_tags@[i])
}

/// The smallest of some costs.
pub open spec fn min_cost(c: Seq<i32>) -> i32
    decreases c.len(),
{
    if c.len() <= 1 {
        if c.len() == 1 {
            c[0]
        } else {
            1
        }
    } else {
        let m = min_cost(c.drop_last());
        if c.last() < m {
            c.last()
        } else {
            m
        }
    }
}

/// The copies held of the lineup's carries.
pub open spec fn core_count(counts: Seq<(Seq<char>, i32)>, carries: Seq<Seq<char>>) -> int
    decreases counts.len(),
{
    if counts.len() == 0 {
        0
    } else {
        core_count(counts.drop_last(), carries) + if carries.contains(counts.last().0) {
            counts.last().1 as int
        } else {
            0int
        }
    }
}

pub open spec fn count_views(c: Seq<(String, i32)>) -> Seq<(Seq<char>, i32)> {
    c.map_values(|e: (String, i32)| (e.0@, e.1))
}

/// `n` divided by `d`, rounded toward zero.
pub open spec fn div_toward_zero(n: int, d: int) -> int {
    if n >= 0 {
        n / d
    } else {
        -((-n) / d)
    }
}

/// The eligibility score before it is kept within 0-100: the carries on
/// hand out of nine (worth 50), gold, health and rival adjustments, and the
/// fit of the core cost with the stage.
pub open spec fn raw_reroll_score(count: int, gold: i32, hp: i32, rivals: i32, cost: i32, stage: i32) -> int {
    div_toward_zero(count * 50, 9) + (if gold >= 30 {
        15int
    } else if gold >= 20 {
        10
    } else if gold >= 10 {
        5
    } else {
        0
    }) + (if hp >= 70 {
        15int
    } else if hp >= 50 {
        8
    } else if hp < 35 {
        -20
    } else {
        0
    }) + (if rivals == 0 {
        10int
    } else if rivals == 1 {
        -5
    } else if rivals >= 2 {
        -20
    } else {
        0
    }) + (if cost == 1 && stage <= 35 {
        10int
    } else if cost == 1 && stage > 35 {
        -30
    } else {
        0
    }) + (if cost == 2 && stage <= 45 {
        5int
    } else {
        0
    }) + (if cost == 3 && 35 <= stage <= 55 {
        10int
    } else {
        0
    })
}

/// The eligibility of a lineup. The stage is stage × 10 + round.
pub open spec fn eligibility_spec(
    p: LineupProfile,
    counts: Seq<(Seq<char>, i32)>,
    gold: i32,
    hp: i32,
    rivals: i32,
    stage: i32,
) -> EligibilityView {
    if !is_reroll_lineup(p) || p.carry_costs@.len() == 0 {
        EligibilityView {
            score: 0,
            lineup_id: p.lineup_id@,
            core_cost: 0,
            current_core_count: 0,
            target_count: 9,
            recommended_level: 0,
            tempo: "不适合赌狗"@,
            stop_conditions: seq![],
            abandon_conditions: seq!["非赌狗阵容"@],
            rival_count: rivals,
            is_recommended: false,
        }
    } else {
        let cost = min_cost(p.carry_costs@);
        let count = core_count(counts, views(p.carry_hero_ids@));
        let score = crate::num::clamp(raw_reroll_score(count, gold, hp, rivals, cost, stage), 0, 100);
        EligibilityView {
            score: score as i32,
            lineup_id: p.lineup_id@,
            core_cost: cost,
            current_core_count: count as i32,
            target_count: 9,
            recommended_level: if cost == 1 {
                5
            } else if cost == 2 {
                6
            } else {
                7
            },
            tempo: if cost == 1 {
                "3-1 卡 5 级大 D 或慢 D"@
            } else if cost == 2 {
                "3-2 升 6 后卡 6 慢 D"@
            } else {
                "4-1/4-2 七级慢 D"@
            },
            stop_conditions: seq!["主 C 三星（需 "@ + int_text(9 - count) + " 张）"@, "金币低于 20"@],
            abandon_conditions: seq![
                "同行 ≥ 2 家（当前 "@ + int_text(rivals as int) + " 家）"@,
                "核心牌少于 4 张且已过关键 D 牌阶段"@,
                "血量低于 35（当前 "@ + int_text(hp as int) + "）"@,
            ] + if cost == 1 && stage > 35 {
                seq!["已过 1 费赌狗窗口"@]
            } else {
                seq![]
            },
            rival_count: rivals,
            is_recommended: score >= 60,
        }
    }
}

/// The held carries add up within `i32` at every step, and the number still
/// needed for three stars (nine less the held count) is an `i32` too: the
/// inputs on which counting does not overflow.
pub open spec fn counts_fit(counts: Seq<(Seq<char>, i32)>, carries: Seq<Seq<char>>) -> bool {
    &&& forall|k: int|
        0 <= k <= counts.len() ==> i32::MIN <= #[trigger] core_count(counts.subrange(0, k), carries) <= i32::MAX
    &&& 9 - core_count(counts, carries) <= i32::MAX
}

fn reroll_tagged(p: &LineupProfile) -> (b: bool)
    ensures
        b == is_reroll_lineup(*p),
{
    let mut i: usize = 0;
    while i < p.playstyle_tags.len()
        invariant
            i <= p.playstyle_tags@.len(),
            forall|j: int| 0 <= j < i ==> !is_reroll_tag(#[trigger] p.playstyle_tags@[j]),
        decreases p.playstyle_tags@.len() - i,
    {
        let t = p.playstyle_tags[i];
        if t == PlaystyleTag::Reroll1Cost || t == PlaystyleTag::Reroll2Cost || t == PlaystyleTag::Reroll3Cost {
            assert(is_reroll_tag(p.playstyle_tags@[i as int]));
            return true;
        }
        i = i + 1;
    }
    false
}

fn smallest(c: &Vec<i32>) -> (m: i32)
    requires
        c@.len() > 0,
    ensures
        m == min_cost(c@),
{
    let mut m = c[0];
    let mut i: usize = 1;
    assert(c@.subrange(0, 1) =~= seq![c@[0]]);
    while i < c.len()
        invariant
            1 <= i <= c@.len(),
            m == min_cost(c@.subrange(0, i as int)),
        decreases c@.len() - i,
    {
        assert(c@.subrange(0, i + 1).drop_last() =~= c@.subrange(0, i as int));
        if c[i] < m {
            m = c[i];
        }
        i = i + 1;
    }
    assert(c@.subrange(0, i as int) =~= c@);
    m
}

fn held_core(counts: &[(String, i32)], carries: &Vec<String>) -> (n: i32)
    requires
        counts_fit(count_views(counts@), views(carries@)),
    ensures
        n == core_count(count_views(counts@), views(carries@)),
{
    let ghost cv = count_views(counts@);
    let mut n: i32 = 0;
    let mut i: usize = 0;
    while i < counts.len()
        invariant
            cv == count_views(counts@),
            counts_fit(cv, views(carries@)),
            i <= cv.len(),
            n == core_count(cv.subrange(0, i as int), views(carries@)),
        decreases cv.len() - i,
    {
        assert(cv.subrange(0, i + 1).drop_last() =~= cv.subrange(0, i as int));
        assert(cv[i as int] == (counts@[i as int].0@, counts@[i as int].1));
        assert(i32::MIN <= core_count(cv.subrange(0, i + 1), views(carries@)) <= i32::MAX);
        if list_has(carries, counts[i].0.as_str()) {
            n = n + counts[i].1;
        }
        i = i + 1;
    }
    assert(cv.subrange(0, i as int) =~= cv);
    n
}

fn reroll_score(count: i32, gold: i32, hp: i32, rivals: i32, cost: i32, stage: i32) -> (score: i64)
    ensures
        score == raw_reroll_score(count as int, gold, hp, rivals, cost, stage),
{
    let c50: i64 = count as i64 * 50;
    let base: i64 = if c50 >= 0 {
        c50 / 9
    } else {
        -((-c50) / 9)
    };
    let g: i64 = if gold >= 30 {
        15
    } else if gold >= 20 {
        10
    } else if gold >= 10 {
        5
    } else {
        0
    };
    let h: i64 = if hp >= 70 {
        15
    } else if hp >= 50 {
        8
    } else if hp < 35 {
        -20
    } else {
        0
    };
    let r: i64 = if rivals == 0 {
        10
    } else if rivals == 1 {
        -5
    } else if rivals >= 2 {
        -20
    } else {
        0
    };
    let s1: i64 = if cost == 1 && stage <= 35 {
        10
    } else if cost == 1 && stage > 35 {
        -30
    } else {
        0
    };
    let s2: i64 = if cost == 2 && stage <= 45 {
        5
    } else {
        0
    };
    let s3: i64 = if cost == 3 && 35 <= stage && stage <= 55 {
        10
    } else {
        0
    };
    base + g + h + r + s1 + s2 + s3
}

fn stop_conditions(count: i32) -> (r: Vec<String>)
    ensures
        views(r@) == seq!["主 C 三星（需 "@ + int_text(9 - count) + " 张）"@, "金币低于 20"@],
{
    let mut need = cat("主 C 三星（需 ", int_to_text(9 - count as i64).as_str());
    push_str(&mut need, " 张）");
    let stop = vec![need, owned("金币低于 20")];
    assert(views(stop@) =~= seq![need@, "金币低于 20"@]);
    stop
}

fn abandon_conditions(rivals: i32, hp: i32, late_one_cost: bool) -> (r: Vec<String>)
    ensures
        views(r@) == seq![
            "同行 ≥ 2 家（当前 "@ + int_text(rivals as int) + " 家）"@,
            "核心牌少于 4 张且已过关键 D 牌阶段"@,
            "血量低于 35（当前 "@ + int_text(hp as int) + "）"@,
        ] + if late_one_cost {
            seq!["已过 1 费赌狗窗口"@]
        } else {
            seq![]
        },
{
    let mut rivals_line = cat("同行 ≥ 2 家（当前 ", int_to_text(rivals as i64).as_str());
    push_str(&mut rivals_line, " 家）");
    let mut hp_line = cat("血量低于 35（当前 ", int_to_text(hp as i64).as_str());
    push_str(&mut hp_line, "）");
    let mut abandon = vec![rivals_line, owned("核心牌少于 4 张且已过关键 D 牌阶段"), hp_line];
    let ghost a0 = views(abandon@);
    assert(a0 =~= seq![rivals_line@, "核心牌少于 4 张且已过关键 D 牌阶段"@, hp_line@]);
    if late_one_cost {
        abandon.push(owned("已过 1 费赌狗窗口"));
        assert(views(abandon@) =~= a0 + seq!["已过 1 费赌狗窗口"@]);
    } else {
        assert(views(abandon@) =~= a0 + Seq::<Seq<char>>::empty());
    }
    abandon
}

impl RerollEligibilityScorer {
    /// The reroll eligibility of a lineup. The stage is given as stage × 10
    /// + round (3-5 is 35); the level is not used.
    pub fn assess(
        profile: &LineupProfile,
        core_hero_counts: &[(String, i32)],
        current_gold: i32,
        current_hp: i32,
        _current_level: i32,
        rival_count: i32,
        round_stage_tenths: i32,
    ) -> (r: RerollEligibility)
        requires
            is_reroll_lineup(*profile) && profile.carry_costs@.len() > 0 ==> counts_fit(
                count_views(core_hero_counts@),
                views(profile.carry_hero_ids@),
            ),
        ensures
            r@ == eligibility_spec(
                *profile,
                count_views(core_hero_counts@),
                current_gold,
                current_hp,
                rival_count,
                round_stage_tenths,
            ),
    {
        if !reroll_tagged(profile) || profile.carry_costs.len() == 0 {
            let abandon = vec![owned("非赌狗阵容")];
            let stop: Vec<String> = Vec::new();
            assert(views(abandon@) =~= seq!["非赌狗阵容"@]);
            assert(views(stop@) =~= Seq::<Seq<char>>::empty());
            return RerollEligibility {
                score: 0,
                lineup_id: profile.lineup_id.clone(),
                core_cost: 0,
                current_core_count: 0,
                target_count: 9,
                recommended_level: 0,
                tempo: owned("不适合赌狗"),
                stop_conditions: stop,
                abandon_conditions: abandon,
                rival_count,
                is_recommended: false,
            };
        }
        let core_cost = smallest(&profile.carry_costs);
        let count = held_core(core_hero_counts, &profile.carry_hero_ids);
        let score = reroll_score(count, current_gold, current_hp, rival_count, core_cost, round_stage_tenths);
        let stage = round_stage_tenths;
        let recommended_level: i32 = if core_cost == 1 {
            5
        } else if core_cost == 2 {
            6
        } else {
            7
        };
        let tempo = if core_cost == 1 {
            owned("3-1 卡 5 级大 D 或慢 D")
        } else if core_cost == 2 {
            owned("3-2 升 6 后卡 6 慢 D")
        } else {
            owned("4-1/4-2 七级慢 D")
        };
        let stop = stop_conditions(count);
        let abandon = abandon_conditions(rival_count, current_hp, core_cost == 1 && stage > 35);
        let clamped: i32 = if score < 0 {
            0
        } else if score > 100 {
            100
        } else {
            score as i32
        };
        RerollEligibility {
            score: clamped,
            lineup_id: profile.lineup_id.clone(),
            core_cost,
            current_core_count: count,
            target_count: 9,
            recommended_level,
            tempo,
            stop_conditions: stop,
            abandon_conditions: abandon,
            rival_count,
            is_recommended: clamped >= 60,
        }
    }

    /// The lineups tagged for rerolling, in order.
    pub fn find_reroll_candidates(profiles: &[LineupProfile]) -> (r: Vec<&LineupProfile>)
        ensures
            r@.len() <= profiles@.len(),
            forall|i: int| 0 <= i < r@.len() ==> is_reroll_lineup(*#[trigger] r@[i]),
            r@.map_values(|p: &LineupProfile| *p) == reroll_lineups(profiles@),
    {
        let mut r: Vec<&LineupProfile> = Vec::new();
        let mut i: usize = 0;
        while i < profiles.len()
            invariant
                i <= profiles@.len(),
                r@.len() <= i,
                forall|k: int| 0 <= k < r@.len() ==> is_reroll_lineup(*#[trigger] r@[k]),
                r@.map_values(|p: &LineupProfile| *p) == reroll_lineups(profiles@.subrange(0, i as int)),
            decreases profiles@.len() - i,
        {
            assert(profiles@.subrange(0, i + 1).drop_last() =~= profiles@.subrange(0, i as int));
            if reroll_tagged(&profiles[i]) {
                let ghost before = r@.map_values(|p: &LineupProfile| *p);
                r.push(&profiles[i]);
                assert(r@.map_values(|p: &LineupProfile| *p) =~= before.push(profiles@[i as int]));
            }
            i = i + 1;
        }
        assert(profiles@.subrange(0, i as int) =~= profiles@);
        r
    }
}

/// The lineups tagged for rerolling, in order.
pub open spec fn reroll_lineups(p: Seq<LineupProfile>) -> Seq<LineupProfile>
    decreases p.len(),
{
    if p.len() == 0 {
        seq![]
    } else if is_reroll_lineup(p.last()) {
        reroll_lineups(p.drop_last()).push(p.last())
    } else {
        reroll_lineups(p.drop_last())
    }
}

} // verus!
