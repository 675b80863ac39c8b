//! The final advice of the rule engine: the opening strategy, the best three
//! lineups, and what to do with gold, items, augments and the transition,
//! with the conditions under which to pivot.
use vstd::prelude::*;
use crate::augment_economy_planner::{AugmentDecisionView, AugmentScore, EconomyDecisionResult};
use crate::augment_reroll_scorer::{AugmentDecisionAction, AugmentRerollDecision, DecisionView};
use crate::opening_route_classifier::OpeningRouteResult;
use crate::order::is_permutation;
use crate::patch_modifier::ScoreView;
use crate::ranking::{stable_order, stably_sorted, Key3};
use crate::rule_types::{
    AugmentDecision, EconomyDecision, ItemDecision, LineupRecommendation, LineupScore, OpeningRoute,
    RerollEligibility, RuleOutput, TransitionDecision,
};
use crate::text::{cat, clone_strings, int_text, int_to_text, join, joined, nat_text, nat_to_text, owned, push_str, str_eq, views};
use crate::transition_risk_scorer::{RiskLevel, RiskReport, TransitionMatch};

verus! {

/// Plans the final advice.
pub struct DecisionPlanner;

// ---------------------------------------------------------------------------
// Views
// ---------------------------------------------------------------------------

pub struct RecView {
    pub lineup_id: Seq<char>,
    pub name: Seq<char>,
    pub score: i32,
    pub reason: Seq<Seq<char>>,
    pub risk: Seq<Seq<char>>,
}

impl View for LineupRecommendation {
    type V = RecView;

    open spec fn view(&self) -> RecView {
        RecView {
            lineup_id: self.lineup_id@,
            name: self.name@,
            score: self.score,
            reason: views(self.reason@),
            risk: views(self.risk@),
        }
    }
}

impl View for EconomyDecision {
    type V = (Seq<char>, Seq<char>);

    open spec fn view(&self) -> (Seq<char>, Seq<char>) {
        (self.action@, self.reason@)
    }
}

impl View for ItemDecision {
    type V = (Seq<char>, Seq<char>);

    open spec fn view(&self) -> (Seq<char>, Seq<char>) {
        (self.action@, self.reason@)
    }
}

impl View for TransitionDecision {
    type V = (Seq<char>, Seq<char>, Seq<char>);

    open spec fn view(&self) -> (Seq<char>, Seq<char>, Seq<char>) {
        (self.route@, self.target_damage_per_round@, self.stop_loss_stage@)
    }
}

pub struct OutputView<F> {
    pub strategy: Seq<char>,
    pub recommendations: Seq<RecView>,
    pub economy: (Seq<char>, Seq<char>),
    pub item: (Seq<char>, Seq<char>),
    pub augment: AugmentDecisionView,
    pub transition: (Seq<char>, Seq<char>, Seq<char>),
    pub pivots: Seq<Seq<char>>,
    pub fight_outcome: Option<F>,
    pub has_knowledge_actions: bool,
    pub generated_at: Seq<char>,
    pub engine_version: Seq<char>,
}

impl<F> View for RuleOutput<F> {
    type V = OutputView<F>;

    open spec fn view(&self) -> OutputView<F> {
        OutputView {
            strategy: self.strategy@,
            recommendations: self.lineup_recommendations@.map_values(|r: LineupRecommendation| r@),
            economy: self.economy_action@,
            item: self.item_action@,
            augment: self.augment_action@,
            transition: self.transition_action@,
            pivots: views(self.pivot_conditions@),
            fight_outcome: self.fight_outcome,
            has_knowledge_actions: self.knowledge_actions is Some,
            generated_at: self.generated_at@,
            engine_version: self.engine_version@,
        }
    }
}

// ---------------------------------------------------------------------------
// Time stamp
// ---------------------------------------------------------------------------

#[verifier::external_type_specification]
#[verifier::external_body]
pub struct ExSystemTime(std::time::SystemTime);

/// `std::time::SystemTime::now`: the reading of the system clock. Nothing is
/// claimed of it.
#[verifier::external_body]
fn clock_now() -> (t: std::time::SystemTime) {
    std::time::SystemTime::now()
}

/// `SystemTime::duration_since(UNIX_EPOCH)`: the time elapsed since the Unix
/// epoch, `None` where the clock reads earlier. Nothing is claimed of the
/// duration, which depends on the clock.
#[verifier::external_body]
fn since_unix_epoch(t: &std::time::SystemTime) -> (d: Option<core::time::Duration>) {
    t.duration_since(std::time::UNIX_EPOCH).ok()
}

/// `Duration::as_secs`: the whole seconds of a duration. Nothing is claimed of
/// the number, as the duration is opaque here.
#[verifier::external_body]
fn whole_seconds(d: &core::time::Duration) -> (s: u64) {
    d.as_secs()
}

/// The text of a time stamp: the decimal seconds, or `unknown` when the clock
/// could not be read.
pub open spec fn stamp_text(secs: Option<u64>) -> Seq<char> {
    match secs {
        Some(s) => nat_text(s as nat),
        None => "unknown"@,
    }
}

/// A time stamp as the clock may give it.
pub open spec fn is_stamp(t: Seq<char>) -> bool {
    exists|secs: Option<u64>| t == stamp_text(secs)
}

/// The text of a time stamp in seconds since the Unix epoch.
pub fn timestamp_text(secs: Option<u64>) -> (t: String)
    ensures
        t@ == stamp_text(secs),
{
    match secs {
        Some(s) => nat_to_text(s),
        None => owned("unknown"),
    }
}

/// The current time stamp.
pub(crate) fn now_stamp() -> (t: String)
    ensures
        is_stamp(t@),
{
    let now = clock_now();
    let secs = match since_unix_epoch(&now) {
        Some(d) => Some(whole_seconds(&d)),
        None => None,
    };
    let t = timestamp_text(secs);
    assert(t@ == stamp_text(secs));
    t
}

// ---------------------------------------------------------------------------
// Strategy and recommended lineups
// ---------------------------------------------------------------------------

/// The strategy named by an opening route.
pub open spec fn strategy_text(route: OpeningRoute) -> Seq<char> {
    match route {
        OpeningRoute::WinStreak => "连胜"@,
        OpeningRoute::LossStreak => "精致连败"@,
        OpeningRoute::Mixed => "混合过渡"@,
    }
}

/// The strategy of an opening.
pub fn strategy_for(route: OpeningRoute) -> (s: String)
    ensures
        s@ == strategy_text(route),
{
    match route {
        OpeningRoute::WinStreak => owned("连胜"),
        OpeningRoute::LossStreak => owned("精致连败"),
        OpeningRoute::Mixed => owned("混合过渡"),
    }
}

pub open spec fn score_views(s: Seq<LineupScore>) -> Seq<ScoreView> {
    s.map_values(|x: LineupScore| x@)
}

/// Higher totals sort first.
pub open spec fn desc_keys(s: Seq<ScoreView>) -> Seq<Key3> {
    s.map_values(|x: ScoreView| (-(x.total_score as int)) as i64).map_values(|k: i64| (k, 0i64, 0i64))
}

/// The recommendation made of a lineup score, its risks followed by `extra`.
pub open spec fn rec_of(s: ScoreView, extra: Seq<Seq<char>>) -> RecView {
    RecView { lineup_id: s.lineup_id, name: s.name, score: s.total_score, reason: s.reasons, risk: s.risks + extra }
}

/// The first three lineups of the order `idx`, made into recommendations.
pub open spec fn top_recs(s: Seq<ScoreView>, idx: Seq<usize>, extra: Seq<Seq<char>>) -> Seq<RecView> {
    Seq::new(if idx.len() < 3 { idx.len() } else { 3 }, |i: int| rec_of(s[idx[i] as int], extra))
}

/// `recs` are the best three lineups by total score, equal totals in their
/// given order.
pub open spec fn best_three(s: Seq<ScoreView>, extra: Seq<Seq<char>>, recs: Seq<RecView>) -> bool {
    exists|idx: Seq<usize>|
        is_permutation(idx, s.len()) && stably_sorted(desc_keys(s), idx) && recs == top_recs(s, idx, extra)
}

/// `recs` are made, in order, from the scores at positions `pos`, no
/// position twice, and no score left out totals more than one taken.
pub open spec fn drawn_from(s: Seq<ScoreView>, extra: Seq<Seq<char>>, recs: Seq<RecView>, pos: Seq<int>) -> bool {
    &&& pos.len() == recs.len()
    &&& forall|i: int, j: int| 0 <= i < j < pos.len() ==> pos[i] != pos[j]
    &&& forall|i: int| 0 <= i < pos.len() ==> 0 <= pos[i] < s.len() && recs[i] == rec_of(s[#[trigger] pos[i]], extra)
    &&& forall|k: int, i: int|
        0 <= k < s.len() && !pos.contains(k) && 0 <= i < recs.len() ==> #[trigger] s[k].total_score
            <= #[trigger] recs[i].score
}

/// The recommendations are the best lineups: three of them, or all when
/// fewer are scored, by non-increasing total, each made from a different
/// score, none of the scores left out totalling more than one recommended.
pub proof fn lemma_best_three(s: Seq<ScoreView>, extra: Seq<Seq<char>>, recs: Seq<RecView>)
    requires
        best_three(s, extra, recs),
    ensures
        recs.len() == if s.len() < 3 {
            s.len() as int
        } else {
            3
        },
        forall|i: int, j: int| 0 <= i < j < recs.len() ==> recs[i].score >= recs[j].score,
        exists|pos: Seq<int>| #[trigger] drawn_from(s, extra, recs, pos),
{
    let keys = desc_keys(s);
    let idx = choose|idx: Seq<usize>|
        is_permutation(idx, s.len()) && stably_sorted(keys, idx) && recs == top_recs(s, idx, extra);
    let n = recs.len() as int;
    assert forall|q: int| 0 <= q < s.len() implies keys[q] == ((-(s[q].total_score as int)) as i64, 0i64, 0i64) by {}
    assert forall|i: int, j: int| 0 <= i < j < recs.len() implies recs[i].score >= recs[j].score by {
        assert(crate::ranking::comes_before(keys, idx[i] as int, idx[j] as int));
    }
    let pos = Seq::new(n as nat, |i: int| idx[i] as int);
    assert forall|k: int, i: int|
        0 <= k < s.len() && !pos.contains(k) && 0 <= i < recs.len() implies #[trigger] s[k].total_score
            <= #[trigger] recs[i].score by {
        assert(crate::order::occurs(idx, k));
        let m = choose|m: int| 0 <= m < idx.len() && idx[m] == k;
        if m < n {
            assert(pos[m] == k);
        }
        assert(crate::ranking::comes_before(keys, idx[i] as int, idx[m] as int));
    }
    assert(drawn_from(s, extra, recs, pos));
}

/// The score of the best recommendation, 0 where there is none.
pub open spec fn top_score(recs: Seq<RecView>) -> int {
    if recs.len() > 0 {
        recs[0].score as int
    } else {
        0
    }
}

/// The three best lineups as recommendations, each with its risks followed by
/// `extra`.
pub fn best_recommendations(scores: &[LineupScore], extra: &Vec<String>) -> (recs: Vec<LineupRecommendation>)
    ensures
        best_three(score_views(scores@), views(extra@), recs@.map_values(|r: LineupRecommendation| r@)),
{
    let ghost sv = score_views(scores@);
    let ghost kv = desc_keys(sv);
    let mut keys: Vec<Key3> = Vec::new();
    let mut i: usize = 0;
    while i < scores.len()
        invariant
            sv == score_views(scores@),
            kv == desc_keys(sv),
            i <= scores@.len(),
            keys@ == kv.subrange(0, i as int),
        decreases scores@.len() - i,
    {
        let k: i64 = -(scores[i].total_score as i64);
        keys.push((k, 0i64, 0i64));
        i = i + 1;
        assert(keys@ =~= kv.subrange(0, i as int));
    }
    assert(kv.subrange(0, i as int) =~= kv);
    let idx = stable_order(&keys);
    let n: usize = if idx.len() < 3 { idx.len() } else { 3 };
    let ghost target = top_recs(sv, idx@, views(extra@));
    let mut recs: Vec<LineupRecommendation> = Vec::new();
    let mut j: usize = 0;
    while j < n
        invariant
            sv == score_views(scores@),
            idx@.len() == scores@.len(),
            forall|t: int| 0 <= t < idx@.len() ==> idx@[t] < scores@.len(),
            n <= idx@.len(),
            n == target.len(),
            target == top_recs(sv, idx@, views(extra@)),
            j <= n,
            recs@.map_values(|r: LineupRecommendation| r@) == target.subrange(0, j as int),
        decreases n - j,
    {
        let s = &scores[idx[j]];
        let mut risk = clone_strings(&s.risks);
        let mut more = clone_strings(extra);
        risk.append(&mut more);
        let rec = LineupRecommendation {
            lineup_id: s.lineup_id.clone(),
            name: s.name.clone(),
            score: s.total_score,
            reason: clone_strings(&s.reasons),
            risk,
        };
        assert(views(rec.risk@) =~= views(s.risks@) + views(extra@));
        assert(rec@ == target[j as int]);
        let ghost before = recs@;
        let ghost rv = rec@;
        recs.push(rec);
        assert(recs@.map_values(|r: LineupRecommendation| r@) =~= before.map_values(|r: LineupRecommendation| r@).push(rv));
        j = j + 1;
        assert(recs@.map_values(|r: LineupRecommendation| r@) =~= target.subrange(0, j as int));
    }
    assert(target.subrange(0, j as int) =~= target);
    recs
}

// ---------------------------------------------------------------------------
// Economy and items
// ---------------------------------------------------------------------------

/// Economy advice taken over from the economy plan, its reasons joined by `; `.
pub open spec fn economy_text(e: EconomyDecisionResult) -> (Seq<char>, Seq<char>) {
    (e.action@, joined(views(e.reasons@), "; "@))
}

/// The economy advice of an economy plan.
pub fn economy_from(e: &EconomyDecisionResult) -> (d: EconomyDecision)
    ensures
        d@ == economy_text(*e),
{
    EconomyDecision { action: e.action.clone(), reason: join(&e.reasons, "; ") }
}

/// The item action for an item direction: AD, AP and tank items are built,
/// anything else is held.
pub open spec fn item_action_text(dir: Seq<char>) -> Seq<char> {
    if dir == "AD"@ {
        "build_ad"@
    } else if dir == "AP"@ {
        "build_ap"@
    } else if dir == "坦"@ {
        "build_tank"@
    } else {
        "hold_flexible"@
    }
}

pub open spec fn item_text(dir: Seq<char>) -> (Seq<char>, Seq<char>) {
    (item_action_text(dir), "当前装备方向: "@ + dir)
}

/// The item advice for an item direction.
pub fn item_from_direction(dir: &str) -> (d: ItemDecision)
    ensures
        d@ == item_text(dir@),
{
    let action = if str_eq(dir, "AD") {
        owned("build_ad")
    } else if str_eq(dir, "AP") {
        owned("build_ap")
    } else if str_eq(dir, "坦") {
        owned("build_tank")
    } else {
        owned("hold_flexible")
    };
    ItemDecision { action, reason: cat("当前装备方向: ", dir) }
}

// ---------------------------------------------------------------------------
// Augments
// ---------------------------------------------------------------------------

/// `b` is the last of the highest-scoring recommended augments.
pub open spec fn is_best_recommended(s: Seq<AugmentScore>, b: int) -> bool {
    &&& 0 <= b < s.len()
    &&& s[b].is_recommended
    &&& forall|j: int| 0 <= j < s.len() && #[trigger] s[j].is_recommended ==> s[j].total_score <= s[b].total_score
    &&& forall|j: int| b < j < s.len() && #[trigger] s[j].is_recommended ==> s[j].total_score < s[b].total_score
}

pub open spec fn some_recommended(s: Seq<AugmentScore>) -> bool {
    exists|j: int| 0 <= j < s.len() && #[trigger] s[j].is_recommended
}

/// The advice for the best recommended augment: the direction is locked when
/// it supports at most two lineups and scores 70 or more.
pub open spec fn augment_of_best(a: AugmentScore) -> AugmentDecisionView {
    let ids = views(a.supported_lineup_ids@);
    AugmentDecisionView {
        action: "take"@,
        recommended: a.augment_name@ + " ("@ + int_text(a.total_score as int) + "分)"@,
        lock_lineup: ids.len() <= 2 && a.total_score >= 70,
        follow_up: if ids.len() <= 2 { "锁定阵容: "@ + joined(ids, ", "@) } else { "继续观察"@ },
    }
}

/// The advice when no augment is recommended.
pub open spec fn augment_without_best(first: bool) -> AugmentDecisionView {
    if first {
        AugmentDecisionView {
            action: "take"@,
            recommended: "通用经济/装备海克斯"@,
            lock_lineup: false,
            follow_up: "3-2 前根据来牌确认方向"@,
        }
    } else {
        AugmentDecisionView {
            action: "take"@,
            recommended: "优先补阵容匹配海克斯"@,
            lock_lineup: false,
            follow_up: "根据当前阵容补强"@,
        }
    }
}

pub open spec fn augment_advice(s: Seq<AugmentScore>, first: bool, d: AugmentDecisionView) -> bool {
    if some_recommended(s) {
        exists|b: int| is_best_recommended(s, b) && d == augment_of_best(s[b])
    } else {
        d == augment_without_best(first)
    }
}

/// The augment advice from the augment scores.
pub fn augment_from_scores(scores: &[AugmentScore], is_first_augment: bool) -> (d: AugmentDecision)
    ensures
        augment_advice(scores@, is_first_augment, d@),
{
    let mut best: Option<usize> = None;
    let mut i: usize = 0;
    while i < scores.len()
        invariant
            i <= scores@.len(),
            match best {
                None => forall|j: int| 0 <= j < i ==> !(#[trigger] scores@[j].is_recommended),
                Some(b) => {
                    &&& b < i
                    &&& scores@[b as int].is_recommended
                    &&& forall|j: int| 0 <= j < i && #[trigger] scores@[j].is_recommended ==> scores@[j].total_score <= scores@[b as int].total_score
                    &&& forall|j: int| b < j < i && #[trigger] scores@[j].is_recommended ==> scores@[j].total_score < scores@[b as int].total_score
                },
            },
        decreases scores@.len() - i,
    {
        if scores[i].is_recommended {
            match best {
                None => {
                    best = Some(i);
                },
                Some(b) => {
                    if scores[i].total_score >= scores[b].total_score {
                        best = Some(i);
                    }
                },
            }
        }
        i = i + 1;
    }
    match best {
        Some(b) => {
            let a = &scores[b];
            let few = a.supported_lineup_ids.len() <= 2;
            let mut recommended = cat(a.augment_name.as_str(), " (");
            push_str(&mut recommended, int_to_text(a.total_score as i64).as_str());
            push_str(&mut recommended, "分)");
            let follow_up = if few {
                let ids = join(&a.supported_lineup_ids, ", ");
                cat("锁定阵容: ", ids.as_str())
            } else {
                owned("继续观察")
            };
            let d = AugmentDecision {
                action: owned("take"),
                recommended,
                lock_lineup: few && a.total_score >= 70,
                follow_up,
            };
            assert(is_best_recommended(scores@, b as int));
            assert(d@ == augment_of_best(scores@[b as int]));
            d
        },
        None => {
            assert(!some_recommended(scores@));
            if is_first_augment {
                AugmentDecision {
                    action: owned("take"),
                    recommended: owned("通用经济/装备海克斯"),
                    lock_lineup: false,
                    follow_up: owned("3-2 前根据来牌确认方向"),
                }
            } else {
                AugmentDecision {
                    action: owned("take"),
                    recommended: owned("优先补阵容匹配海克斯"),
                    lock_lineup: false,
                    follow_up: owned("根据当前阵容补强"),
                }
            }
        },
    }
}

// ---------------------------------------------------------------------------
// Transition
// ---------------------------------------------------------------------------

/// `b` is the last of the best transition matches.
pub open spec fn is_best_match(m: Seq<TransitionMatch>, b: int) -> bool {
    &&& 0 <= b < m.len()
    &&& forall|j: int| 0 <= j < m.len() ==> (#[trigger] m[j]).transition_score <= m[b].transition_score
    &&& forall|j: int| b < j < m.len() ==> (#[trigger] m[j]).transition_score < m[b].transition_score
}

/// Damage to aim for per round at a risk level.
pub open spec fn damage_target(r: RiskLevel) -> Seq<char> {
    match r {
        RiskLevel::Low => "0-3"@,
        RiskLevel::Medium => "3-6"@,
        RiskLevel::High => "5-8"@,
        RiskLevel::Critical => "立即止血"@,
    }
}

/// When to stop losing health: 3-2 after a loss-streak opening, else 3-5.
pub open spec fn stop_loss_of(route: OpeningRoute) -> Seq<char> {
    match route {
        OpeningRoute::LossStreak => "3-2"@,
        _ => "3-5"@,
    }
}

pub open spec fn transition_advice(
    m: Seq<TransitionMatch>,
    risk: RiskLevel,
    route: OpeningRoute,
    t: (Seq<char>, Seq<char>, Seq<char>),
) -> bool {
    if m.len() > 0 {
        exists|b: int| is_best_match(m, b) && t == ("匹配 "@ + m[b].lineup_name@, damage_target(risk), stop_loss_of(route))
    } else {
        t == ("无明确过渡匹配"@, "2-6"@, "3-2"@)
    }
}

/// The transition advice from the transition matches.
pub fn transition_from(matches: &[TransitionMatch], risk: RiskLevel, route: OpeningRoute) -> (t: TransitionDecision)
    ensures
        transition_advice(matches@, risk, route, t@),
{
    if matches.len() == 0 {
        return TransitionDecision {
            route: owned("无明确过渡匹配"),
            target_damage_per_round: owned("2-6"),
            stop_loss_stage: owned("3-2"),
        };
    }
    let mut b: usize = 0;
    let mut i: usize = 1;
    while i < matches.len()
        invariant
            1 <= i <= matches@.len(),
            b < i,
            forall|j: int| 0 <= j < i ==> (#[trigger] matches@[j]).transition_score <= matches@[b as int].transition_score,
            forall|j: int| b < j < i ==> (#[trigger] matches@[j]).transition_score < matches@[b as int].transition_score,
        decreases matches@.len() - i,
    {
        if matches[i].transition_score >= matches[b].transition_score {
            b = i;
        }
        i = i + 1;
    }
    let target = match risk {
        RiskLevel::Low => owned("0-3"),
        RiskLevel::Medium => owned("3-6"),
        RiskLevel::High => owned("5-8"),
        RiskLevel::Critical => owned("立即止血"),
    };
    let stop = match route {
        OpeningRoute::LossStreak => owned("3-2"),
        _ => owned("3-5"),
    };
    let t = TransitionDecision { route: cat("匹配 ", matches[b].lineup_name.as_str()), target_damage_per_round: target, stop_loss_stage: stop };
    assert(is_best_match(matches@, b as int));
    t
}

// ---------------------------------------------------------------------------
// Pivot conditions
// ---------------------------------------------------------------------------

/// The abandon conditions of the reroll lines that are not recommended, in
/// order.
pub open spec fn dropped_conditions(rs: Seq<RerollEligibility>) -> Seq<Seq<char>>
    decreases rs.len(),
{
    if rs.len() == 0 {
        Seq::empty()
    } else if !rs.last().is_recommended {
        dropped_conditions(rs.drop_last()) + views(rs.last().abandon_conditions@)
    } else {
        dropped_conditions(rs.drop_last())
    }
}

/// The pivot conditions: the risk report's reasons, then the abandon
/// conditions of the reroll lines given up; when there are none and the best
/// lineup scores under 50, a note to keep watching.
pub open spec fn plan_pivots(reasons: Seq<Seq<char>>, rs: Seq<RerollEligibility>, top: int) -> Seq<Seq<char>> {
    let base = reasons + dropped_conditions(rs);
    if base.len() == 0 && top < 50 {
        seq!["当前最佳阵容评分偏低，继续观察"@]
    } else {
        base
    }
}

/// The pivot conditions of a plan.
pub fn pivots_from(reasons: &Vec<String>, rerolls: &[RerollEligibility], top: i32) -> (p: Vec<String>)
    ensures
        views(p@) == plan_pivots(views(reasons@), rerolls@, top as int),
{
    let mut p = clone_strings(reasons);
    let mut i: usize = 0;
    while i < rerolls.len()
        invariant
            i <= rerolls@.len(),
            views(p@) == views(reasons@) + dropped_conditions(rerolls@.subrange(0, i as int)),
        decreases rerolls@.len() - i,
    {
        assert(rerolls@.subrange(0, i + 1).drop_last() =~= rerolls@.subrange(0, i as int));
        assert(rerolls@.subrange(0, i + 1).last() == rerolls@[i as int]);
        let ghost old_p = p@;
        if !rerolls[i].is_recommended {
            let mut more = clone_strings(&rerolls[i].abandon_conditions);
            let ghost mv = more@;
            p.append(&mut more);
            assert(views(p@) =~= views(old_p) + views(mv));
        }
        i = i + 1;
        assert(views(p@) =~= views(reasons@) + dropped_conditions(rerolls@.subrange(0, i as int)));
    }
    assert(rerolls@.subrange(0, i as int) =~= rerolls@);
    if p.len() == 0 && top < 50 {
        p.push(owned("当前最佳阵容评分偏低，继续观察"));
        assert(views(p@) =~= seq!["当前最佳阵容评分偏低，继续观察"@]);
    }
    p
}

// ---------------------------------------------------------------------------
// Plans
// ---------------------------------------------------------------------------

/// Everything of a plan but its augment advice, time stamp and version.
pub open spec fn planned<F>(
    o: OutputView<F>,
    opening: OpeningRouteResult,
    scores: Seq<LineupScore>,
    dir: Seq<char>,
    econ: EconomyDecisionResult,
    risk: RiskReport,
    rerolls: Seq<RerollEligibility>,
    matches: Seq<TransitionMatch>,
    fight: Option<F>,
) -> bool {
    &&& o.strategy == strategy_text(opening.route)
    &&& best_three(score_views(scores), views(risk.details@), o.recommendations)
    &&& o.economy == economy_text(econ)
    &&& o.item == item_text(dir)
    &&& transition_advice(matches, risk.overall, opening.route, o.transition)
    &&& o.pivots == plan_pivots(views(risk.pivot_reasons@), rerolls, top_score(o.recommendations))
    &&& o.fight_outcome == fight
    &&& !o.has_knowledge_actions
}

/// The action named by an augment decision.
pub open spec fn reroll_action_text(a: AugmentDecisionAction) -> Seq<char> {
    match a {
        AugmentDecisionAction::Take => "take"@,
        AugmentDecisionAction::Reroll => "reroll"@,
        AugmentDecisionAction::TakeFallback => "take_fallback"@,
    }
}

/// What to pick for an augment decision.
pub open spec fn reroll_pick_text(a: AugmentDecisionAction, name: Option<Seq<char>>) -> Seq<char> {
    match a {
        AugmentDecisionAction::Take => match name {
            Some(n) => "拿 "@ + n,
            None => "拿当前最高分海克斯"@,
        },
        AugmentDecisionAction::Reroll => "刷新当前三个海克斯"@,
        AugmentDecisionAction::TakeFallback => match name {
            Some(n) => "兜底拿 "@ + n,
            None => "兜底拿锁方向风险最低的海克斯"@,
        },
    }
}

/// The augment advice of an augment decision: a direction is locked only when
/// the augment is taken, the lock risk is at most 35 and the best option
/// supports at most two lineups.
pub open spec fn advice_of_reroll(d: DecisionView) -> AugmentDecisionView {
    AugmentDecisionView {
        action: reroll_action_text(d.action),
        recommended: reroll_pick_text(d.action, d.recommended_augment_name),
        lock_lineup: d.action == AugmentDecisionAction::Take && d.lock_risk <= 35 && d.ranked_options.len() > 0
            && d.ranked_options[0].supported_lineup_ids.len() <= 2,
        follow_up: joined(d.reason, "; "@),
    }
}

impl DecisionPlanner {
    /// The full advice with a given time stamp.
    pub fn plan_at<F>(
        opening: &OpeningRouteResult,
        lineup_scores: &[LineupScore],
        item_fit_direction: &str,
        economy_result: &EconomyDecisionResult,
        augment_scores: &[AugmentScore],
        is_first_augment: bool,
        risk_report: &RiskReport,
        reroll_candidates: &[RerollEligibility],
        transition_matches: &[TransitionMatch],
        fight_outcome: Option<F>,
        generated_at: String,
    ) -> (r: RuleOutput<F>)
        ensures
            planned(r@, *opening, lineup_scores@, item_fit_direction@, *economy_result, *risk_report,
                reroll_candidates@, transition_matches@, fight_outcome),
            augment_advice(augment_scores@, is_first_augment, r@.augment),
            r@.generated_at == generated_at@,
            r@.engine_version == "0.3.0"@,
    {
        let recs = best_recommendations(lineup_scores, &risk_report.details);
        let top: i32 = if recs.len() > 0 { recs[0].score } else { 0 };
        let pivots = pivots_from(&risk_report.pivot_reasons, reroll_candidates, top);
        let r = RuleOutput {
            strategy: strategy_for(opening.route),
            lineup_recommendations: recs,
            economy_action: economy_from(economy_result),
            item_action: item_from_direction(item_fit_direction),
            augment_action: augment_from_scores(augment_scores, is_first_augment),
            transition_action: transition_from(transition_matches, risk_report.overall, opening.route),
            pivot_conditions: pivots,
            fight_outcome,
            knowledge_actions: None,
            generated_at,
            engine_version: owned("0.3.0"),
        };
        assert(top as int == top_score(r@.recommendations));
        r
    }

    /// The full advice, stamped with the current time.
    pub fn plan<F>(
        opening: &OpeningRouteResult,
        lineup_scores: &[LineupScore],
        item_fit_direction: &str,
        economy_result: &EconomyDecisionResult,
        augment_scores: &[AugmentScore],
        is_first_augment: bool,
        risk_report: &RiskReport,
        reroll_candidates: &[RerollEligibility],
        transition_matches: &[TransitionMatch],
        fight_outcome: Option<F>,
        current_hp: i32,
    ) -> (r: RuleOutput<F>)
        ensures
            planned(r@, *opening, lineup_scores@, item_fit_direction@, *economy_result, *risk_report,
                reroll_candidates@, transition_matches@, fight_outcome),
            augment_advice(augment_scores@, is_first_augment, r@.augment),
            is_stamp(r@.generated_at),
            r@.engine_version == "0.3.0"@,
    {
        Self::plan_at(
            opening,
            lineup_scores,
            item_fit_direction,
            economy_result,
            augment_scores,
            is_first_augment,
            risk_report,
            reroll_candidates,
            transition_matches,
            fight_outcome,
            now_stamp(),
        )
    }

    /// The augment advice of an augment reroll decision.
    pub fn augment_decision_from_reroll(decision: &AugmentRerollDecision) -> (d: AugmentDecision)
        ensures
            d@ == advice_of_reroll(decision@),
    {
        let action = match decision.action {
            AugmentDecisionAction::Take => owned("take"),
            AugmentDecisionAction::Reroll => owned("reroll"),
            AugmentDecisionAction::TakeFallback => owned("take_fallback"),
        };
        let recommended = match decision.action {
            AugmentDecisionAction::Take => match &decision.recommended_augment_name {
                Some(name) => cat("拿 ", name.as_str()),
                None => owned("拿当前最高分海克斯"),
            },
            AugmentDecisionAction::Reroll => owned("刷新当前三个海克斯"),
            AugmentDecisionAction::TakeFallback => match &decision.recommended_augment_name {
                Some(name) => cat("兜底拿 ", name.as_str()),
                None => owned("兜底拿锁方向风险最低的海克斯"),
            },
        };
        let few = if decision.ranked_options.len() > 0 {
            decision.ranked_options[0].supported_lineup_ids.len() <= 2
        } else {
            false
        };
        let lock_lineup = match decision.action {
            AugmentDecisionAction::Take => decision.lock_risk <= 35 && few,
            _ => false,
        };
        AugmentDecision { action, recommended, lock_lineup, follow_up: join(&decision.reason, "; ") }
    }

    /// The full advice with a given time stamp, the augment advice taken from
    /// the augment reroll decision where there is one.
    pub fn plan_with_augment_reroll_at<F>(
        opening: &OpeningRouteResult,
        lineup_scores: &[LineupScore],
        item_fit_direction: &str,
        economy_result: &EconomyDecisionResult,
        augment_scores: &[AugmentScore],
        is_first_augment: bool,
        augment_reroll: Option<&AugmentRerollDecision>,
        risk_report: &RiskReport,
        reroll_candidates: &[RerollEligibility],
        transition_matches: &[TransitionMatch],
        fight_outcome: Option<F>,
        generated_at: String,
    ) -> (r: RuleOutput<F>)
        ensures
            planned(r@, *opening, lineup_scores@, item_fit_direction@, *economy_result, *risk_report,
                reroll_candidates@, transition_matches@, fight_outcome),
            r@.generated_at == generated_at@,
            match augment_reroll {
                Some(d) => r@.augment == advice_of_reroll(d@) && r@.engine_version == "0.4.0"@,
                None => augment_advice(augment_scores@, is_first_augment, r@.augment) && r@.engine_version
                    == "0.3.0"@,
            },
    {
        let mut output = Self::plan_at(
            opening,
            lineup_scores,
            item_fit_direction,
            economy_result,
            augment_scores,
            is_first_augment,
            risk_report,
            reroll_candidates,
            transition_matches,
            fight_outcome,
            generated_at,
        );
        if let Some(decision) = augment_reroll {
            output.augment_action = Self::augment_decision_from_reroll(decision);
            output.engine_version = owned("0.4.0");
        }
        output
    }

    /// The full advice stamped with the current time, the augment advice taken
    /// from the augment reroll decision where there is one.
    pub fn plan_with_augment_reroll<F>(
        opening: &OpeningRouteResult,
        lineup_scores: &[LineupScore],
        item_fit_direction: &str,
        economy_result: &EconomyDecisionResult,
        augment_scores: &[AugmentScore],
        is_first_augment: bool,
        augment_reroll: Option<&AugmentRerollDecision>,
        risk_report: &RiskReport,
        reroll_candidates: &[RerollEligibility],
        transition_matches: &[TransitionMatch],
        fight_outcome: Option<F>,
        current_hp: i32,
    ) -> (r: RuleOutput<F>)
        ensures
            planned(r@, *opening, lineup_scores@, item_fit_direction@, *economy_result, *risk_report,
                reroll_candidates@, transition_matches@, fight_outcome),
            is_stamp(r@.generated_at),
            match augment_reroll {
                Some(d) => r@.augment == advice_of_reroll(d@) && r@.engine_version == "0.4.0"@,
                None => augment_advice(augment_scores@, is_first_augment, r@.augment) && r@.engine_version
                    == "0.3.0"@,
            },
    {
        Self::plan_with_augment_reroll_at(
            opening,
            lineup_scores,
            item_fit_direction,
            economy_result,
            augment_scores,
            is_first_augment,
            augment_reroll,
            risk_report,
            reroll_candidates,
            transition_matches,
            fight_outcome,
            now_stamp(),
        )
    }
}

// ---------------------------------------------------------------------------
// Earlier plan
// ---------------------------------------------------------------------------

/// The augment advice of the earlier plan, from the best recommendation.
pub open spec fn legacy_augment(recs: Seq<RecView>) -> AugmentDecisionView {
    if recs.len() > 0 {
        if recs[0].score >= 75 {
            AugmentDecisionView {
                action: "take"@,
                recommended: "优先选择 "@ + recs[0].name + " 的推荐海克斯"@,
                lock_lineup: true,
                follow_up: "阵容方向明确，拿专属强化后锁定阵容"@,
            }
        } else {
            AugmentDecisionView {
                action: "take"@,
                recommended: "通用经济海克斯或通用战力海克斯"@,
                lock_lineup: false,
                follow_up: "3-2 前根据来牌和装备确认方向"@,
            }
        }
    } else {
        AugmentDecisionView {
            action: "take"@,
            recommended: "通用经济海克斯"@,
            lock_lineup: false,
            follow_up: "当前无明确方向，保留弹性"@,
        }
    }
}

/// The transition advice of the earlier plan, by opening route.
pub open spec fn legacy_transition(route: OpeningRoute) -> (Seq<char>, Seq<char>, Seq<char>) {
    match route {
        OpeningRoute::WinStreak => ("win_streak_maintain"@, "0-2"@, "N/A"@),
        OpeningRoute::LossStreak => ("loss_streak_control"@, "4-8"@, "3-2"@),
        OpeningRoute::Mixed => ("mixed_transition"@, "2-5"@, "3-5"@),
    }
}

/// `[lineup] condition` for each abandon condition of the recommended reroll
/// lines, in order.
pub open spec fn tagged_conditions(rs: Seq<RerollEligibility>) -> Seq<Seq<char>>
    decreases rs.len(),
{
    if rs.len() == 0 {
        Seq::empty()
    } else if rs.last().is_recommended {
        let id = rs.last().lineup_id@;
        tagged_conditions(rs.drop_last()) + views(rs.last().abandon_conditions@).map_values(
            |c: Seq<char>| "["@ + id + "] "@ + c,
        )
    } else {
        tagged_conditions(rs.drop_last())
    }
}

pub open spec fn line_when(b: bool, t: Seq<char>) -> Seq<Seq<char>> {
    if b {
        seq![t]
    } else {
        Seq::empty()
    }
}

/// The pivot conditions of the earlier plan: health under 45 and under 35, a
/// best lineup under 60, then the tagged conditions of the reroll lines.
pub open spec fn legacy_pivots(hp: int, recs: Seq<RecView>, rs: Seq<RerollEligibility>) -> Seq<Seq<char>> {
    line_when(hp < 45, "血量低于 45，停止贪经济"@) + line_when(hp < 35, "血量低于 35，立即止血"@) + line_when(
        recs.len() > 0 && recs[0].score < 60,
        "当前最佳阵容评分低于 60，继续观察"@,
    ) + tagged_conditions(rs)
}

/// Everything of an earlier plan but its time stamp and version.
pub open spec fn planned_legacy<F>(
    o: OutputView<F>,
    opening: OpeningRouteResult,
    scores: Seq<LineupScore>,
    economy: (Seq<char>, Seq<char>),
    item: (Seq<char>, Seq<char>),
    rerolls: Seq<RerollEligibility>,
    hp: int,
) -> bool {
    &&& o.strategy == strategy_text(opening.route)
    &&& best_three(score_views(scores), Seq::empty(), o.recommendations)
    &&& o.economy == economy
    &&& o.item == item
    &&& o.augment == legacy_augment(o.recommendations)
    &&& o.transition == legacy_transition(opening.route)
    &&& o.pivots == legacy_pivots(hp, o.recommendations, rerolls)
    &&& o.fight_outcome.is_none()
    &&& !o.has_knowledge_actions
}

/// The pivot conditions of the earlier plan.
fn legacy_pivots_from(current_hp: i32, recs: &Vec<LineupRecommendation>, rerolls: &[RerollEligibility]) -> (p: Vec<String>)
    ensures
        views(p@) == legacy_pivots(current_hp as int, recs@.map_values(|r: LineupRecommendation| r@), rerolls@),
{
    let ghost rv = recs@.map_values(|r: LineupRecommendation| r@);
    let mut p: Vec<String> = Vec::new();
    if current_hp < 45 {
        p.push(owned("血量低于 45，停止贪经济"));
    }
    if current_hp < 35 {
        p.push(owned("血量低于 35，立即止血"));
    }
    if recs.len() > 0 && recs[0].score < 60 {
        p.push(owned("当前最佳阵容评分低于 60，继续观察"));
    }
    let ghost head = line_when(current_hp < 45, "血量低于 45，停止贪经济"@) + line_when(
        current_hp < 35,
        "血量低于 35，立即止血"@,
    ) + line_when(rv.len() > 0 && rv[0].score < 60, "当前最佳阵容评分低于 60，继续观察"@);
    assert(views(p@) =~= head);
    let mut i: usize = 0;
    while i < rerolls.len()
        invariant
            i <= rerolls@.len(),
            views(p@) == head + tagged_conditions(rerolls@.subrange(0, i as int)),
        decreases rerolls@.len() - i,
    {
        assert(rerolls@.subrange(0, i + 1).drop_last() =~= rerolls@.subrange(0, i as int));
        assert(rerolls@.subrange(0, i + 1).last() == rerolls@[i as int]);
        let ghost before = views(p@);
        if rerolls[i].is_recommended {
            let r = &rerolls[i];
            let ghost id = r.lineup_id@;
            let ghost conds = views(r.abandon_conditions@);
            let mut k: usize = 0;
            while k < r.abandon_conditions.len()
                invariant
                    k <= r.abandon_conditions@.len(),
                    conds == views(r.abandon_conditions@),
                    id == r.lineup_id@,
                    views(p@) == before + conds.subrange(0, k as int).map_values(|c: Seq<char>| "["@ + id + "] "@ + c),
                decreases r.abandon_conditions@.len() - k,
            {
                let mut line = cat("[", r.lineup_id.as_str());
                push_str(&mut line, "] ");
                push_str(&mut line, r.abandon_conditions[k].as_str());
                assert(line@ == "["@ + id + "] "@ + conds[k as int]);
                let ghost pv = p@;
                let ghost lv = line@;
                p.push(line);
                assert(views(p@) =~= views(pv).push(lv));
                assert(conds.subrange(0, k + 1).map_values(|c: Seq<char>| "["@ + id + "] "@ + c) =~= conds.subrange(
                    0,
                    k as int,
                ).map_values(|c: Seq<char>| "["@ + id + "] "@ + c).push(lv));
                k = k + 1;
                assert(views(p@) =~= before + conds.subrange(0, k as int).map_values(|c: Seq<char>| "["@ + id + "] "@ + c));
            }
            assert(conds.subrange(0, k as int) =~= conds);
        }
        i = i + 1;
        assert(views(p@) =~= head + tagged_conditions(rerolls@.subrange(0, i as int)));
    }
    assert(rerolls@.subrange(0, i as int) =~= rerolls@);
    p
}

impl DecisionPlanner {
    /// The earlier form of the advice, with a given time stamp: economy and
    /// item actions given as (action, reason) texts.
    pub fn plan_legacy_at<F>(
        opening: &OpeningRouteResult,
        lineup_scores: &[LineupScore],
        economy_action: (&str, &str),
        item_action: (&str, &str),
        reroll_candidates: &[RerollEligibility],
        current_hp: i32,
        generated_at: String,
    ) -> (r: RuleOutput<F>)
        ensures
            planned_legacy(r@, *opening, lineup_scores@, (economy_action.0@, economy_action.1@),
                (item_action.0@, item_action.1@), reroll_candidates@, current_hp as int),
            r@.generated_at == generated_at@,
            r@.engine_version == "0.2.0"@,
    {
        let none: Vec<String> = Vec::new();
        let recs = best_recommendations(lineup_scores, &none);
        assert(views(none@) =~= Seq::<Seq<char>>::empty());
        let ghost rv = recs@.map_values(|r: LineupRecommendation| r@);
        let augment_action = if recs.len() > 0 {
            if recs[0].score >= 75 {
                let mut rec_text = cat("优先选择 ", recs[0].name.as_str());
                push_str(&mut rec_text, " 的推荐海克斯");
                AugmentDecision {
                    action: owned("take"),
                    recommended: rec_text,
                    lock_lineup: true,
                    follow_up: owned("阵容方向明确，拿专属强化后锁定阵容"),
                }
            } else {
                AugmentDecision {
                    action: owned("take"),
                    recommended: owned("通用经济海克斯或通用战力海克斯"),
                    lock_lineup: false,
                    follow_up: owned("3-2 前根据来牌和装备确认方向"),
                }
            }
        } else {
            AugmentDecision {
                action: owned("take"),
                recommended: owned("通用经济海克斯"),
                lock_lineup: false,
                follow_up: owned("当前无明确方向，保留弹性"),
            }
        };
        assert(augment_action@ == legacy_augment(rv));
        let transition_action = match opening.route {
            OpeningRoute::WinStreak => TransitionDecision {
                route: owned("win_streak_maintain"),
                target_damage_per_round: owned("0-2"),
                stop_loss_stage: owned("N/A"),
            },
            OpeningRoute::LossStreak => TransitionDecision {
                route: owned("loss_streak_control"),
                target_damage_per_round: owned("4-8"),
                stop_loss_stage: owned("3-2"),
            },
            OpeningRoute::Mixed => TransitionDecision {
                route: owned("mixed_transition"),
                target_damage_per_round: owned("2-5"),
                stop_loss_stage: owned("3-5"),
            },
        };
        let pivots = legacy_pivots_from(current_hp, &recs, reroll_candidates);
        RuleOutput {
            strategy: strategy_for(opening.route),
            lineup_recommendations: recs,
            economy_action: EconomyDecision { action: owned(economy_action.0), reason: owned(economy_action.1) },
            item_action: ItemDecision { action: owned(item_action.0), reason: owned(item_action.1) },
            augment_action,
            transition_action,
            pivot_conditions: pivots,
            fight_outcome: None,
            knowledge_actions: None,
            generated_at,
            engine_version: owned("0.2.0"),
        }
    }

    /// The earlier form of the advice, stamped with the current time.
    pub fn plan_legacy<F>(
        opening: &OpeningRouteResult,
        lineup_scores: &[LineupScore],
        economy_action: (&str, &str),
        item_action: (&str, &str),
        reroll_candidates: &[RerollEligibility],
        current_hp: i32,
    ) -> (r: RuleOutput<F>)
        ensures
            planned_legacy(r@, *opening, lineup_scores@, (economy_action.0@, economy_action.1@),
                (item_action.0@, item_action.1@), reroll_candidates@, current_hp as int),
            is_stamp(r@.generated_at),
            r@.engine_version == "0.2.0"@,
    {
        Self::plan_legacy_at(opening, lineup_scores, economy_action, item_action, reroll_candidates, current_hp, now_stamp())
    }
}

} // verus!
