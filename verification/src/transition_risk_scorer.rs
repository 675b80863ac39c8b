//! Transition lineups that fit the current board, and the risks of the
//! current game: health, rivals, items, completion, economy and a locked
//! lineup, with whether to pivot.
use vstd::prelude::*;
use crate::double_ratio::{f64_percent_trunc, percent_trunc};
use crate::order::is_permutation;
use crate::ranking::{is_last_max, last_max, stable_order, stably_sorted, Key3};
use crate::rule_types::LineupProfile;
use crate::text::{cat, clone_strings, int_text, int_to_text, list_has, owned, push_str, views};

verus! {

/// How well a lineup's transition heroes fit the current board.
#[derive(Debug, Clone)]
pub struct TransitionMatch {
    pub lineup_id: String,
    pub lineup_name: String,
    pub early_hits: i32,
    pub mid_hits: i32,
    /// 0-100.
    pub transition_score: i32,
    pub keep_hero_ids: Vec<String>,
    pub transition_traits: Vec<String>,
}

/// Matches boards to transition lineups.
pub struct TransitionLineupMatcher;

/// A risk level.
#[derive(Debug, Clone, Copy, PartialEq, Eq, Structural)]
pub enum RiskLevel {
    Low,
    Medium,
    High,
    Critical,
}

/// The risks of the current game.
#[derive(Debug, Clone)]
pub struct RiskReport {
    pub overall: RiskLevel,
    pub hp_risk: RiskLevel,
    pub rival_risk: RiskLevel,
    pub item_risk: RiskLevel,
    pub completion_risk: RiskLevel,
    pub economy_risk: RiskLevel,
    pub lock_risk: RiskLevel,
    pub details: Vec<String>,
    pub priorities: Vec<String>,
    pub should_pivot: bool,
    pub pivot_reasons: Vec<String>,
}

/// Scores risks.
pub struct RiskScorer;

// ---------------------------------------------------------------------------
// Transition matches
// ---------------------------------------------------------------------------

pub struct MatchView {
    pub lineup_id: Seq<char>,
    pub lineup_name: Seq<char>,
    pub early_hits: i32,
    pub mid_hits: i32,
    pub transition_score: i32,
    pub keep_hero_ids: Seq<Seq<char>>,
    pub transition_traits: Seq<Seq<char>>,
}

impl View for TransitionMatch {
    type V = MatchView;

    open spec fn view(&self) -> MatchView {
        MatchView {
            lineup_id: self.lineup_id@,
            lineup_name: self.lineup_name@,
            early_hits: self.early_hits,
            mid_hits: self.mid_hits,
            transition_score: self.transition_score,
            keep_hero_ids: views(self.keep_hero_ids@),
            transition_traits: views(self.transition_traits@),
        }
    }
}

/// How many of `ids` are on the board.
pub open spec fn hits(ids: Seq<Seq<char>>, board: Seq<Seq<char>>) -> int
    decreases ids.len(),
{
    if ids.len() == 0 {
        0
    } else {
        hits(ids.drop_last(), board) + if board.contains(ids.last()) {
            1int
        } else {
            0int
        }
    }
}

/// The board heroes that are among the lineup's early or mid heroes, in
/// board order.
pub open spec fn kept(board: Seq<Seq<char>>, early: Seq<Seq<char>>, mid: Seq<Seq<char>>) -> Seq<Seq<char>>
    decreases board.len(),
{
    if board.len() == 0 {
        seq![]
    } else {
        let rest = kept(board.drop_last(), early, mid);
        let h = board.last();
        if early.contains(h) || mid.contains(h) {
            rest.push(h)
        } else {
            rest
        }
    }
}

/// Sort key of a trait target: larger counts first.
pub open spec fn target_key(t: (Seq<char>, i32)) -> Key3 {
    (-(t.1 as int) as i64, 0, 0)
}

/// The text of a trait target.
pub open spec fn target_text(t: (Seq<char>, i32)) -> Seq<char> {
    t.0 + " x"@ + int_text(t.1 as int)
}

/// `texts` describes the three largest trait targets (fewer when there are
/// fewer), larger counts first and equal counts in their order.
pub open spec fn top_targets(targets: Seq<(Seq<char>, i32)>, texts: Seq<Seq<char>>) -> bool {
    exists|idx: Seq<usize>|
        is_permutation(idx, targets.len()) && stably_sorted(targets.map_values(|t: (Seq<char>, i32)| target_key(t)), idx)
            && texts.len() == if targets.len() < 3 {
            targets.len()
        } else {
            3
        } && forall|i: int| 0 <= i < texts.len() ==> #[trigger] texts[i] == target_text(targets[idx[i] as int])
}

pub open spec fn target_views(t: Seq<(String, i32)>) -> Seq<(Seq<char>, i32)> {
    t.map_values(|e: (String, i32)| (e.0@, e.1))
}

/// The weighted hits: early hits count double until stage 3-5, mid hits
/// after.
pub open spec fn effective_hits(early_hits: int, mid_hits: int, stage_tenths: i32) -> int {
    if stage_tenths <= 35 {
        early_hits * 2 + mid_hits
    } else {
        early_hits + mid_hits * 2
    }
}

/// The transition score: the weighted hits per listed transition hero, in
/// percent as the float quotient times a hundred truncates, at most 100.
pub open spec fn transition_score_of(early_hits: int, mid_hits: int, listed: int, stage_tenths: i32) -> int {
    let most = if listed > 1 {
        listed
    } else {
        1
    };
    let s = f64_percent_trunc(effective_hits(early_hits, mid_hits, stage_tenths), most);
    if s > 100 {
        100
    } else {
        s
    }
}

/// The weighted hits of a lineup on the board fit in an `i32`, and its
/// number of transition heroes in a `usize`.
pub open spec fn hits_fit(p: LineupProfile, board: Seq<Seq<char>>, stage_tenths: i32) -> bool {
    &&& effective_hits(hits(views(p.early_hero_ids@), board), hits(views(p.mid_hero_ids@), board), stage_tenths)
        <= i32::MAX
    &&& p.early_hero_ids@.len() + p.mid_hero_ids@.len() <= usize::MAX
}

/// `m` is the match of lineup `p` for the board at the given stage.
pub open spec fn match_of(m: MatchView, p: LineupProfile, board: Seq<Seq<char>>, stage_tenths: i32) -> bool {
    let early = views(p.early_hero_ids@);
    let mid = views(p.mid_hero_ids@);
    &&& m.lineup_id == p.lineup_id@
    &&& m.lineup_name == p.name@
    &&& m.early_hits == hits(early, board)
    &&& m.mid_hits == hits(mid, board)
    &&& m.transition_score == transition_score_of(hits(early, board), hits(mid, board), (early.len() + mid.len()) as int, stage_tenths)
    &&& m.keep_hero_ids == kept(board, early, mid)
    &&& top_targets(target_views(p.trait_targets@), m.transition_traits)
}

proof fn lemma_hits_bounded(ids: Seq<Seq<char>>, board: Seq<Seq<char>>)
    ensures
        0 <= hits(ids, board) <= ids.len(),
    decreases ids.len(),
{
    if ids.len() > 0 {
        lemma_hits_bounded(ids.drop_last(), board);
    }
}

fn count_hits(ids: &Vec<String>, board: &[String]) -> (n: i32)
    requires
        hits(views(ids@), views(board@)) <= i32::MAX,
    ensures
        n == hits(views(ids@), views(board@)),
{
    let ghost iv = views(ids@);
    let ghost bv = views(board@);
    let mut n: usize = 0;
    let mut i: usize = 0;
    while i < ids.len()
        invariant
            iv == views(ids@),
            bv == views(board@),
            hits(iv, bv) <= i32::MAX,
            i <= iv.len(),
            n == hits(iv.subrange(0, i as int), bv),
            0 <= n <= i,
        decreases iv.len() - i,
    {
        assert(iv.subrange(0, i + 1).drop_last() =~= iv.subrange(0, i as int));
        assert(iv[i as int] == ids@[i as int]@);
        if slice_has(board, ids[i].as_str()) {
            n = n + 1;
        }
        i = i + 1;
    }
    assert(iv.subrange(0, i as int) =~= iv);
    n as i32
}

fn slice_has(v: &[String], s: &str) -> (b: bool)
    ensures
        b == views(v@).contains(s@),
{
    let mut i: usize = 0;
    while i < v.len()
        invariant
            i <= v@.len(),
            forall|j: int| 0 <= j < i ==> v@[j]@ != s@,
        decreases v@.len() - i,
    {
        if crate::text::str_eq(v[i].as_str(), s) {
            assert(views(v@)[i as int] == s@);
            return true;
        }
        i = i + 1;
    }
    assert forall|j: int| 0 <= j < views(v@).len() implies views(v@)[j] != s@ by {
        assert(views(v@)[j] == v@[j]@);
    }
    false
}

fn kept_heroes(board: &[String], early: &Vec<String>, mid: &Vec<String>) -> (r: Vec<String>)
    ensures
        views(r@) == kept(views(board@), views(early@), views(mid@)),
{
    let ghost bv = views(board@);
    let mut r: Vec<String> = Vec::new();
    let mut i: usize = 0;
    while i < board.len()
        invariant
            bv == views(board@),
            i <= bv.len(),
            views(r@) == kept(bv.subrange(0, i as int), views(early@), views(mid@)),
        decreases bv.len() - i,
    {
        assert(bv.subrange(0, i + 1).drop_last() =~= bv.subrange(0, i as int));
        assert(bv[i as int] == board@[i as int]@);
        let h = board[i].as_str();
        if list_has(early, h) || list_has(mid, h) {
            let ghost before = views(r@);
            r.push(owned(h));
            assert(views(r@) =~= before.push(h@));
        }
        i = i + 1;
    }
    assert(bv.subrange(0, i as int) =~= bv);
    r
}

fn top_target_texts(targets: &Vec<(String, i32)>) -> (r: Vec<String>)
    ensures
        top_targets(target_views(targets@), views(r@)),
{
    let ghost tv = target_views(targets@);
    let ghost kv = tv.map_values(|t: (Seq<char>, i32)| target_key(t));
    let mut keys: Vec<Key3> = Vec::new();
    let mut i: usize = 0;
    while i < targets.len()
        invariant
            tv == target_views(targets@),
            kv == tv.map_values(|t: (Seq<char>, i32)| target_key(t)),
            i <= tv.len(),
            keys@ == kv.subrange(0, i as int),
        decreases tv.len() - i,
    {
        let k: Key3 = (-(targets[i].1 as i64), 0, 0);
        keys.push(k);
        assert(tv[i as int] == (targets@[i as int].0@, targets@[i as int].1));
        i = i + 1;
        assert(keys@ =~= kv.subrange(0, i as int));
    }
    assert(kv.subrange(0, i as int) =~= kv);
    let idx = stable_order(&keys);
    let n: usize = if idx.len() < 3 {
        idx.len()
    } else {
        3
    };
    let mut r: Vec<String> = Vec::new();
    let mut t: usize = 0;
    while t < n
        invariant
            tv == target_views(targets@),
            is_permutation(idx@, tv.len()),
            n <= idx@.len(),
            t <= n,
            views(r@).len() == t,
            forall|q: int| 0 <= q < t ==> #[trigger] views(r@)[q] == target_text(tv[idx@[q] as int]),
        decreases n - t,
    {
        let e = &targets[idx[t]];
        let mut line = cat(e.0.as_str(), " x");
        push_str(&mut line, int_to_text(e.1 as i64).as_str());
        let ghost before = views(r@);
        r.push(line);
        assert(views(r@) =~= before.push(line@));
        assert(tv[idx@[t as int] as int] == (e.0@, e.1));
        t = t + 1;
    }
    r
}

impl TransitionLineupMatcher {
    /// The match of each lineup for the board, in lineup order. The stage is
    /// given as stage × 10 + round (3-5 is 35).
    pub fn match_transitions(profiles: &[LineupProfile], current_hero_ids: &[String], round_stage_tenths: i32) -> (r:
        Vec<TransitionMatch>)
        requires
            forall|i: int|
                0 <= i < profiles@.len() ==> hits_fit(#[trigger] profiles@[i], views(current_hero_ids@), round_stage_tenths),
        ensures
            r@.len() == profiles@.len(),
            forall|i: int| 0 <= i < r@.len() ==> match_of((#[trigger] r@[i])@, profiles@[i], views(current_hero_ids@), round_stage_tenths),
    {
        let mut r: Vec<TransitionMatch> = Vec::new();
        let mut i: usize = 0;
        while i < profiles.len()
            invariant
                i <= profiles@.len(),
                r@.len() == i,
                forall|j: int|
                    0 <= j < profiles@.len() ==> hits_fit(#[trigger] profiles@[j], views(current_hero_ids@), round_stage_tenths),
                forall|j: int| 0 <= j < i ==> match_of((#[trigger] r@[j])@, profiles@[j], views(current_hero_ids@), round_stage_tenths),
            decreases profiles@.len() - i,
        {
            let p = &profiles[i];
            assert(hits_fit(*p, views(current_hero_ids@), round_stage_tenths));
            proof {
                lemma_hits_bounded(views(p.early_hero_ids@), views(current_hero_ids@));
                lemma_hits_bounded(views(p.mid_hero_ids@), views(current_hero_ids@));
            }
            let early_hits = count_hits(&p.early_hero_ids, current_hero_ids);
            let mid_hits = count_hits(&p.mid_hero_ids, current_hero_ids);
            let effective: u64 = if round_stage_tenths <= 35 {
                early_hits as u64 * 2 + mid_hits as u64
            } else {
                early_hits as u64 + mid_hits as u64 * 2
            };
            let listed: u64 = (p.early_hero_ids.len() + p.mid_hero_ids.len()) as u64;
            let most: u64 = if listed > 1 {
                listed
            } else {
                1
            };
            let s = percent_trunc(effective, most);
            let score: i32 = if s > 100 {
                100
            } else {
                s as i32
            };
            let m = TransitionMatch {
                lineup_id: p.lineup_id.clone(),
                lineup_name: p.name.clone(),
                early_hits,
                mid_hits,
                transition_score: score,
                keep_hero_ids: kept_heroes(current_hero_ids, &p.early_hero_ids, &p.mid_hero_ids),
                transition_traits: top_target_texts(&p.trait_targets),
            };
            r.push(m);
            i = i + 1;
        }
        r
    }

    /// The match with the highest transition score among those with at
    /// least `min_hits` early and mid hits (the last of equal scores).
    pub fn best_transition(matches: &[TransitionMatch], min_hits: i32) -> (r: Option<&TransitionMatch>)
        ensures
            match r {
                Some(m) => exists|f: int|
                    0 <= f < matches@.len() && matches@[f] == *m && qualifies(matches@[f], min_hits) && forall|j: int|
                        0 <= j < matches@.len() && qualifies(#[trigger] matches@[j], min_hits) ==> (matches@[j].transition_score
                            < m.transition_score || (matches@[j].transition_score == m.transition_score && j <= f)),
                None => forall|j: int| 0 <= j < matches@.len() ==> !qualifies(#[trigger] matches@[j], min_hits),
            },
    {
        let mut best: Option<usize> = None;
        let mut i: usize = 0;
        while i < matches.len()
            invariant
                i <= matches@.len(),
                match best {
                    Some(f) => f < i && qualifies(matches@[f as int], min_hits) && forall|j: int|
                        0 <= j < i && qualifies(#[trigger] matches@[j], min_hits) ==> (matches@[j].transition_score
                            < matches@[f as int].transition_score || (matches@[j].transition_score
                            == matches@[f as int].transition_score && j <= f)),
                    None => forall|j: int| 0 <= j < i ==> !qualifies(#[trigger] matches@[j], min_hits),
                },
            decreases matches@.len() - i,
        {
            let m = &matches[i];
            if m.early_hits as i64 + m.mid_hits as i64 >= min_hits as i64 {
                match best {
                    Some(f) => {
                        if m.transition_score >= matches[f].transition_score {
                            best = Some(i);
                        }
                    },
                    None => {
                        best = Some(i);
                    },
                }
            }
            i = i + 1;
        }
        match best {
            Some(f) => Some(&matches[f]),
            None => None,
        }
    }
}

/// A match has at least `min_hits` early and mid hits.
pub open spec fn qualifies(m: TransitionMatch, min_hits: i32) -> bool {
    m.early_hits + m.mid_hits >= min_hits
}

// ---------------------------------------------------------------------------
// Risks
// ---------------------------------------------------------------------------

pub struct RiskView {
    pub overall: RiskLevel,
    pub hp_risk: RiskLevel,
    pub rival_risk: RiskLevel,
    pub item_risk: RiskLevel,
    pub completion_risk: RiskLevel,
    pub economy_risk: RiskLevel,
    pub lock_risk: RiskLevel,
    pub details: Seq<Seq<char>>,
    pub priorities: Seq<Seq<char>>,
    pub should_pivot: bool,
    pub pivot_reasons: Seq<Seq<char>>,
}

impl View for RiskReport {
    type V = RiskView;

    open spec fn view(&self) -> RiskView {
        RiskView {
            overall: self.overall,
            hp_risk: self.hp_risk,
            rival_risk: self.rival_risk,
            item_risk: self.item_risk,
            completion_risk: self.completion_risk,
            economy_risk: self.economy_risk,
            lock_risk: self.lock_risk,
            details: views(self.details@),
            priorities: views(self.priorities@),
            should_pivot: self.should_pivot,
            pivot_reasons: views(self.pivot_reasons@),
        }
    }
}

/// Points of a risk level: 1 to 4.
pub open spec fn risk_points(r: RiskLevel) -> int {
    match r {
        RiskLevel::Critical => 4,
        RiskLevel::High => 3,
        RiskLevel::Medium => 2,
        RiskLevel::Low => 1,
    }
}

pub open spec fn line_if(b: bool, t: Seq<char>) -> Seq<Seq<char>> {
    if b {
        seq![t]
    } else {
        seq![]
    }
}

/// A one-line risk: its level, detail, priority and pivot reason.
pub struct RiskPart {
    pub level: RiskLevel,
    pub details: Seq<Seq<char>>,
    pub priorities: Seq<Seq<char>>,
    pub pivots: Seq<Seq<char>>,
}

pub open spec fn part(level: RiskLevel, details: Seq<Seq<char>>, priorities: Seq<Seq<char>>, pivots: Seq<Seq<char>>) -> RiskPart {
    RiskPart { level, details, priorities, pivots }
}

/// Health risk: critical below 25, high below 35, medium below 50.
pub open spec fn hp_part(hp: i32) -> RiskPart {
    if hp < 25 {
        part(RiskLevel::Critical, seq!["血量仅 "@ + int_text(hp as int) + "，极度危险"@], seq!["立即止血"@], seq![])
    } else if hp < 35 {
        part(RiskLevel::High, seq!["血量 "@ + int_text(hp as int) + "，进入危险区"@], seq!["优先保血"@], seq![])
    } else if hp < 50 {
        part(RiskLevel::Medium, seq!["血量 "@ + int_text(hp as int) + "，偏低"@], seq![], seq![])
    } else {
        part(RiskLevel::Low, seq![], seq![], seq![])
    }
}

/// Rival risk: high with three or more rivals, medium with two.
pub open spec fn rival_part(rivals: i32) -> RiskPart {
    if rivals >= 3 {
        part(
            RiskLevel::High,
            seq!["同行 "@ + int_text(rivals as int) + " 家，竞争激烈"@],
            seq!["考虑转阵容"@],
            seq!["同行 "@ + int_text(rivals as int) + " 家"@],
        )
    } else if rivals >= 2 {
        part(RiskLevel::Medium, seq!["同行 "@ + int_text(rivals as int) + " 家"@], seq![], seq![])
    } else {
        part(RiskLevel::Low, seq![], seq![], seq![])
    }
}

/// Item risk: high below 20% of the items matching, medium below 50%.
pub open spec fn item_part(percent: i32) -> RiskPart {
    if percent < 20 {
        part(RiskLevel::High, seq!["装备严重不匹配当前阵容"@], seq!["优先拿核心装或考虑转阵容"@], seq!["装备不匹配"@])
    } else if percent < 50 {
        part(RiskLevel::Medium, seq!["装备匹配率 "@ + int_text(percent as int) + "%"@], seq![], seq![])
    } else {
        part(RiskLevel::Low, seq![], seq![], seq![])
    }
}

/// Some target carry costs five or more.
pub open spec fn has_five_cost(costs: Seq<i32>) -> bool {
    exists|i: int| 0 <= i < costs.len() && #[trigger] costs[i] >= 5
}

/// Completion risk: a missing required augment is high; a five-cost carry
/// with a level under 7 raises a low risk to medium; a five-cost carry with
/// under 20 gold is high.
pub open spec fn completion_part(requires_augment: bool, has_augment: bool, costs: Seq<i32>, level: i32, gold: i32) -> RiskPart {
    let missing = requires_augment && !has_augment;
    let underleveled = has_five_cost(costs) && level < 7;
    let poor = has_five_cost(costs) && gold < 20;
    part(
        if poor || missing {
            RiskLevel::High
        } else if underleveled {
            RiskLevel::Medium
        } else {
            RiskLevel::Low
        },
        line_if(missing, "需要专属海克斯但未拿到"@) + line_if(underleveled, "核心高费但等级不足"@) + line_if(
            poor,
            "核心高费但经济不足"@,
        ),
        seq![],
        line_if(missing, "缺少关键海克斯"@),
    )
}

/// Economy risk: critical under 10 gold with under 50 health, high under 10
/// gold, medium under 20.
pub open spec fn economy_part(gold: i32, hp: i32) -> RiskPart {
    if gold < 10 && hp < 50 {
        part(RiskLevel::Critical, seq!["经济见底且血量偏低"@], seq![], seq![])
    } else if gold < 10 {
        part(RiskLevel::High, seq!["经济见底"@], seq![], seq![])
    } else if gold < 20 {
        part(RiskLevel::Medium, seq![], seq![], seq![])
    } else {
        part(RiskLevel::Low, seq![], seq![], seq![])
    }
}

/// Locked-lineup risk: high when locked with under 30% matching items and
/// under 50 health, medium when locked with rivals.
pub open spec fn lock_part(locked: bool, percent: i32, hp: i32, rivals: i32) -> RiskPart {
    if locked && percent < 30 && hp < 50 {
        part(RiskLevel::High, seq!["阵容已锁但装备不匹配，血量低"@], seq!["考虑放弃硬玩"@], seq!["装备不匹配且血量低"@])
    } else if locked && rivals >= 2 {
        part(RiskLevel::Medium, seq!["阵容已锁且有同行"@], seq![], seq![])
    } else {
        part(RiskLevel::Low, seq![], seq![], seq![])
    }
}

/// The overall level of a weighted risk total (health counts double).
pub open spec fn overall_of(total: int) -> RiskLevel {
    if total >= 24 {
        RiskLevel::Critical
    } else if total >= 16 {
        RiskLevel::High
    } else if total >= 10 {
        RiskLevel::Medium
    } else {
        RiskLevel::Low
    }
}

/// The risk report: each risk with its details, priorities and pivot
/// reasons in order; the overall level from the weighted total; a pivot
/// when critical, or high with two or more pivot reasons.
pub open spec fn risk_spec(
    hp: i32,
    gold: i32,
    level: i32,
    locked: bool,
    rivals: i32,
    percent: i32,
    costs: Seq<i32>,
    requires_augment: bool,
    has_augment: bool,
) -> RiskView {
    let h = hp_part(hp);
    let r = rival_part(rivals);
    let i = item_part(percent);
    let c = completion_part(requires_augment, has_augment, costs, level, gold);
    let e = economy_part(gold, hp);
    let l = lock_part(locked, percent, hp, rivals);
    let total = risk_points(h.level) * 2 + risk_points(r.level) + risk_points(i.level) + risk_points(c.level)
        + risk_points(e.level) + risk_points(l.level);
    let overall = overall_of(total);
    let pivots = h.pivots + r.pivots + i.pivots + c.pivots + e.pivots + l.pivots;
    RiskView {
        overall,
        hp_risk: h.level,
        rival_risk: r.level,
        item_risk: i.level,
        completion_risk: c.level,
        economy_risk: e.level,
        lock_risk: l.level,
        details: h.details + r.details + i.details + c.details + e.details + l.details,
        priorities: h.priorities + r.priorities + i.priorities + c.priorities + e.priorities + l.priorities,
        should_pivot: overall == RiskLevel::Critical || (overall == RiskLevel::High && pivots.len() >= 2),
        pivot_reasons: pivots,
    }
}

/// The health risk of an assessment is critical below 25 health, high from
/// 25 to 34, medium from 35 to 49 and low from 50, whatever else is
/// assessed; less health never means less health risk.
pub proof fn lemma_health_risk(
    hp: i32,
    hp2: i32,
    gold: i32,
    level: i32,
    locked: bool,
    rivals: i32,
    percent: i32,
    costs: Seq<i32>,
    requires_augment: bool,
    has_augment: bool,
)
    ensures
        risk_spec(hp, gold, level, locked, rivals, percent, costs, requires_augment, has_augment).hp_risk == if hp
            < 25 {
            RiskLevel::Critical
        } else if hp < 35 {
            RiskLevel::High
        } else if hp < 50 {
            RiskLevel::Medium
        } else {
            RiskLevel::Low
        },
        hp <= hp2 ==> risk_points(
            risk_spec(hp, gold, level, locked, rivals, percent, costs, requires_augment, has_augment).hp_risk,
        ) >= risk_points(
            risk_spec(hp2, gold, level, locked, rivals, percent, costs, requires_augment, has_augment).hp_risk,
        ),
{
}

/// The rival risk of an assessment is high with three or more rivals on the
/// lineup, medium with two and low otherwise; more rivals never mean less
/// rival risk.
pub proof fn lemma_rival_risk(
    hp: i32,
    gold: i32,
    level: i32,
    locked: bool,
    rivals: i32,
    rivals2: i32,
    percent: i32,
    costs: Seq<i32>,
    requires_augment: bool,
    has_augment: bool,
)
    ensures
        risk_spec(hp, gold, level, locked, rivals, percent, costs, requires_augment, has_augment).rival_risk == if rivals
            >= 3 {
            RiskLevel::High
        } else if rivals >= 2 {
            RiskLevel::Medium
        } else {
            RiskLevel::Low
        },
        rivals <= rivals2 ==> risk_points(
            risk_spec(hp, gold, level, locked, rivals, percent, costs, requires_augment, has_augment).rival_risk,
        ) <= risk_points(
            risk_spec(hp, gold, level, locked, rivals2, percent, costs, requires_augment, has_augment).rival_risk,
        ),
{
}

/// Points of a risk level.
pub fn risk_to_int(r: RiskLevel) -> (n: i32)
    ensures
        n == risk_points(r),
{
    match r {
        RiskLevel::Critical => 4,
        RiskLevel::High => 3,
        RiskLevel::Medium => 2,
        RiskLevel::Low => 1,
    }
}

fn add_part(
    details: &mut Vec<String>,
    priorities: &mut Vec<String>,
    pivots: &mut Vec<String>,
    d: Vec<String>,
    p: Vec<String>,
    v: Vec<String>,
)
    ensures
        views(final(details)@) == views(old(details)@) + views(d@),
        views(final(priorities)@) == views(old(priorities)@) + views(p@),
        views(final(pivots)@) == views(old(pivots)@) + views(v@),
{
    let ghost d0 = views(details@);
    let ghost p0 = views(priorities@);
    let ghost v0 = views(pivots@);
    let mut d = d;
    let mut p = p;
    let mut v = v;
    let ghost dv = views(d@);
    let ghost pv = views(p@);
    let ghost vv = views(v@);
    details.append(&mut d);
    priorities.append(&mut p);
    pivots.append(&mut v);
    assert(views(details@) =~= d0 + dv);
    assert(views(priorities@) =~= p0 + pv);
    assert(views(pivots@) =~= v0 + vv);
}

fn one(t: String) -> (r: Vec<String>)
    ensures
        views(r@) == seq![t@],
{
    let r = vec![t];
    assert(views(r@) =~= seq![t@]);
    r
}

fn none() -> (r: Vec<String>)
    ensures
        views(r@) == Seq::<Seq<char>>::empty(),
{
    let r: Vec<String> = Vec::new();
    assert(views(r@) =~= Seq::<Seq<char>>::empty());
    r
}

fn num_line(a: &str, n: i32, b: &str) -> (s: String)
    ensures
        s@ == a@ + int_text(n as int) + b@,
{
    let mut s = cat(a, int_to_text(n as i64).as_str());
    push_str(&mut s, b);
    s
}

fn any_five_cost(costs: &[i32]) -> (b: bool)
    ensures
        b == has_five_cost(costs@),
{
    let mut i: usize = 0;
    while i < costs.len()
        invariant
            i <= costs@.len(),
            forall|j: int| 0 <= j < i ==> costs@[j] < 5,
        decreases costs@.len() - i,
    {
        if costs[i] >= 5 {
            return true;
        }
        i = i + 1;
    }
    false
}

/// Computed parts of a risk: level, details, priorities, pivot reasons.
pub type PartOut = (RiskLevel, Vec<String>, Vec<String>, Vec<String>);

pub open spec fn is_part(r: PartOut, p: RiskPart) -> bool {
    r.0 == p.level && views(r.1@) == p.details && views(r.2@) == p.priorities && views(r.3@) == p.pivots
}

fn hp_risk(hp: i32) -> (r: PartOut)
    ensures
        is_part(r, hp_part(hp)),
{
    if hp < 25 {
        (RiskLevel::Critical, one(num_line("血量仅 ", hp, "，极度危险")), one(owned("立即止血")), none())
    } else if hp < 35 {
        (RiskLevel::High, one(num_line("血量 ", hp, "，进入危险区")), one(owned("优先保血")), none())
    } else if hp < 50 {
        (RiskLevel::Medium, one(num_line("血量 ", hp, "，偏低")), none(), none())
    } else {
        (RiskLevel::Low, none(), none(), none())
    }
}

fn rival_risk(rivals: i32) -> (r: PartOut)
    ensures
        is_part(r, rival_part(rivals)),
{
    if rivals >= 3 {
        (
            RiskLevel::High,
            one(num_line("同行 ", rivals, " 家，竞争激烈")),
            one(owned("考虑转阵容")),
            one(num_line("同行 ", rivals, " 家")),
        )
    } else if rivals >= 2 {
        (RiskLevel::Medium, one(num_line("同行 ", rivals, " 家")), none(), none())
    } else {
        (RiskLevel::Low, none(), none(), none())
    }
}

fn item_risk(percent: i32) -> (r: PartOut)
    ensures
        is_part(r, item_part(percent)),
{
    if percent < 20 {
        (
            RiskLevel::High,
            one(owned("装备严重不匹配当前阵容")),
            one(owned("优先拿核心装或考虑转阵容")),
            one(owned("装备不匹配")),
        )
    } else if percent < 50 {
        (RiskLevel::Medium, one(num_line("装备匹配率 ", percent, "%")), none(), none())
    } else {
        (RiskLevel::Low, none(), none(), none())
    }
}

fn completion_risk(requires_augment: bool, has_augment: bool, costs: &[i32], level: i32, gold: i32) -> (r: PartOut)
    ensures
        is_part(r, completion_part(requires_augment, has_augment, costs@, level, gold)),
{
    let five = any_five_cost(costs);
    let missing = requires_augment && !has_augment;
    let underleveled = five && level < 7;
    let poor = five && gold < 20;
    let mut d: Vec<String> = Vec::new();
    let ghost d0 = views(d@);
    if missing {
        d.push(owned("需要专属海克斯但未拿到"));
    }
    let ghost d1 = views(d@);
    assert(d1 =~= line_if(missing, "需要专属海克斯但未拿到"@));
    if underleveled {
        d.push(owned("核心高费但等级不足"));
    }
    let ghost d2 = views(d@);
    assert(d2 =~= d1 + line_if(underleveled, "核心高费但等级不足"@));
    if poor {
        d.push(owned("核心高费但经济不足"));
    }
    assert(views(d@) =~= d2 + line_if(poor, "核心高费但经济不足"@));
    let v = if missing {
        one(owned("缺少关键海克斯"))
    } else {
        none()
    };
    let level = if poor || missing {
        RiskLevel::High
    } else if underleveled {
        RiskLevel::Medium
    } else {
        RiskLevel::Low
    };
    (level, d, none(), v)
}

fn economy_risk(gold: i32, hp: i32) -> (r: PartOut)
    ensures
        is_part(r, economy_part(gold, hp)),
{
    if gold < 10 && hp < 50 {
        (RiskLevel::Critical, one(owned("经济见底且血量偏低")), none(), none())
    } else if gold < 10 {
        (RiskLevel::High, one(owned("经济见底")), none(), none())
    } else if gold < 20 {
        (RiskLevel::Medium, none(), none(), none())
    } else {
        (RiskLevel::Low, none(), none(), none())
    }
}

fn lock_risk(locked: bool, percent: i32, hp: i32, rivals: i32) -> (r: PartOut)
    ensures
        is_part(r, lock_part(locked, percent, hp, rivals)),
{
    if locked && percent < 30 && hp < 50 {
        (
            RiskLevel::High,
            one(owned("阵容已锁但装备不匹配，血量低")),
            one(owned("考虑放弃硬玩")),
            one(owned("装备不匹配且血量低")),
        )
    } else if locked && rivals >= 2 {
        (RiskLevel::Medium, one(owned("阵容已锁且有同行")), none(), none())
    } else {
        (RiskLevel::Low, none(), none(), none())
    }
}

impl RiskScorer {
    /// The risks of the current game. Item matching is given in percent;
    /// the stage (stage × 10 + round) and core hero hits are not used.
    pub fn assess(
        current_hp: i32,
        current_gold: i32,
        current_level: i32,
        lineup_locked: bool,
        rival_count: i32,
        item_match_percent: i32,
        _core_hero_hits: i32,
        target_carry_costs: &[i32],
        requires_augment: bool,
        has_required_augment: bool,
        _round_stage_tenths: i32,
    ) -> (r: RiskReport)
        ensures
            r@ == risk_spec(
                current_hp,
                current_gold,
                current_level,
                lineup_locked,
                rival_count,
                item_match_percent,
                target_carry_costs@,
                requires_augment,
                has_required_augment,
            ),
    {
        let mut details: Vec<String> = Vec::new();
        let mut priorities: Vec<String> = Vec::new();
        let mut pivots: Vec<String> = Vec::new();
        let h = hp_risk(current_hp);
        let r = rival_risk(rival_count);
        let i = item_risk(item_match_percent);
        let c = completion_risk(requires_augment, has_required_augment, target_carry_costs, current_level, current_gold);
        let e = economy_risk(current_gold, current_hp);
        let l = lock_risk(lineup_locked, item_match_percent, current_hp, rival_count);
        let (hl, hd, hp_, hv) = h;
        let (rl, rd, rp, rv) = r;
        let (il, id, ip, iv) = i;
        let (cl, cd, cp, cv) = c;
        let (el, ed, ep, ev) = e;
        let (ll, ld, lp, lv) = l;
        add_part(&mut details, &mut priorities, &mut pivots, hd, hp_, hv);
        add_part(&mut details, &mut priorities, &mut pivots, rd, rp, rv);
        add_part(&mut details, &mut priorities, &mut pivots, id, ip, iv);
        add_part(&mut details, &mut priorities, &mut pivots, cd, cp, cv);
        add_part(&mut details, &mut priorities, &mut pivots, ed, ep, ev);
        add_part(&mut details, &mut priorities, &mut pivots, ld, lp, lv);
        assert(views(details@) =~= Seq::<Seq<char>>::empty() + hp_part(current_hp).details + rival_part(rival_count).details
            + item_part(item_match_percent).details + completion_part(
            requires_augment,
            has_required_augment,
            target_carry_costs@,
            current_level,
            current_gold,
        ).details + economy_part(current_gold, current_hp).details + lock_part(
            lineup_locked,
            item_match_percent,
            current_hp,
            rival_count,
        ).details);
        let total = risk_to_int(hl) * 2 + risk_to_int(rl) + risk_to_int(il) + risk_to_int(cl) + risk_to_int(el)
            + risk_to_int(ll);
        let overall = if total >= 24 {
            RiskLevel::Critical
        } else if total >= 16 {
            RiskLevel::High
        } else if total >= 10 {
            RiskLevel::Medium
        } else {
            RiskLevel::Low
        };
        let should_pivot = overall == RiskLevel::Critical || (overall == RiskLevel::High && pivots.len() >= 2);
        RiskReport {
            overall,
            hp_risk: hl,
            rival_risk: rl,
            item_risk: il,
            completion_risk: cl,
            economy_risk: el,
            lock_risk: ll,
            details,
            priorities,
            should_pivot,
            pivot_reasons: pivots,
        }
    }
}

} // verus!
