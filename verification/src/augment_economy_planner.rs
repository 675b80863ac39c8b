//! The decision on the first augment of a game: take the highest-scoring one,
//! and lock a lineup direction only when it is strong, safe and narrow.
use vstd::prelude::*;
use crate::double_ratio::{f64_percent_trunc, percent_trunc};
use crate::ranking::{is_last_max, last_max, Key3};
use crate::augment_effect_interpreter::AugmentEffect;
use crate::num::div10_toward_zero;
use crate::rule_types::{AugmentDecision, LineupProfile};
use crate::text::{cat, clone_strings, int_text, int_to_text, join, joined, list_has, owned, push_str, views};

verus! {

/// An augment scored against the candidate lineups.
#[derive(Debug, Clone)]
pub struct AugmentScore {
    pub augment_id: String,
    pub augment_name: String,
    pub total_score: i32,
    /// General combat value (0-100).
    pub combat_power: i32,
    /// How many candidate lineups it supports (0-100).
    pub lineup_coverage: i32,
    /// Risk of locking a direction (0-100, higher is riskier).
    pub lock_risk: i32,
    /// Value as a playstyle enabler (0-100).
    pub playstyle_enable_value: i32,
    pub is_recommended: bool,
    pub tags: Vec<String>,
    pub reasons: Vec<String>,
    pub supported_lineup_ids: Vec<String>,
}

/// Scores augments against lineups.
pub struct AugmentFitScorer;

/// Plans the economy of a round.
pub struct EconomyPlanner;

/// An economy action with its reasons.
#[derive(Debug, Clone)]
pub struct EconomyDecisionResult {
    pub action: String,
    pub label: String,
    pub target_gold: i32,
    pub reasons: Vec<String>,
}

pub struct ScoreView {
    pub augment_name: Seq<char>,
    pub total_score: int,
    pub lock_risk: int,
    pub supported_lineup_ids: Seq<Seq<char>>,
}

impl View for AugmentScore {
    type V = ScoreView;

    open spec fn view(&self) -> ScoreView {
        ScoreView {
            augment_name: self.augment_name@,
            total_score: self.total_score as int,
            lock_risk: self.lock_risk as int,
            supported_lineup_ids: views(self.supported_lineup_ids@),
        }
    }
}

pub struct AugmentDecisionView {
    pub action: Seq<char>,
    pub recommended: Seq<char>,
    pub lock_lineup: bool,
    pub follow_up: Seq<char>,
}

impl View for AugmentDecision {
    type V = AugmentDecisionView;

    open spec fn view(&self) -> AugmentDecisionView {
        AugmentDecisionView {
            action: self.action@,
            recommended: self.recommended@,
            lock_lineup: self.lock_lineup,
            follow_up: self.follow_up@,
        }
    }
}

/// The score of an augment as a key for picking the best one.
pub open spec fn total_key(s: ScoreView) -> Key3 {
    (s.total_score as i64, 0i64, 0i64)
}

/// A direction is locked when the augment is strong (80+), safe (risk under
/// 40) and supports at most two lineups.
pub open spec fn should_lock(s: ScoreView) -> bool {
    s.total_score >= 80 && s.lock_risk < 40 && s.supported_lineup_ids.len() <= 2
}

/// `name (score分)`, followed by the lockable lineups when the direction is
/// locked and some lineup is supported.
pub open spec fn recommended_text(s: ScoreView) -> Seq<char> {
    let head = s.augment_name + " ("@ + int_text(s.total_score) + "分)"@;
    if should_lock(s) && s.supported_lineup_ids.len() > 0 {
        head + " [可锁: "@ + joined(s.supported_lineup_ids, ", "@) + "]"@
    } else {
        head
    }
}

/// What to watch for next.
pub open spec fn follow_up_text(lock: bool, current_hp: int) -> Seq<char> {
    if lock {
        "方向明确，后续优先匹配此阵容装备和棋子"@
    } else if current_hp < 50 {
        "血量偏低，优先保战力，3-2 再确认方向"@
    } else {
        "3-2 前根据来牌和装备确认方向"@
    }
}

/// The decision when the best augment is `s`.
pub open spec fn first_decision_for(s: ScoreView, current_hp: int) -> AugmentDecisionView {
    AugmentDecisionView {
        action: "take"@,
        recommended: recommended_text(s),
        lock_lineup: should_lock(s),
        follow_up: follow_up_text(should_lock(s), current_hp),
    }
}

/// The decision when there is no augment to choose from.
pub open spec fn no_augment_decision() -> AugmentDecisionView {
    AugmentDecisionView {
        action: "take_fallback"@,
        recommended: "无候选海克斯"@,
        lock_lineup: false,
        follow_up: "等待后续海克斯选择"@,
    }
}

/// The first-augment decision: with no option the fallback is taken and
/// nothing is recommended or locked; otherwise the last of the
/// highest-scoring options is taken and named with its score, the direction
/// is locked exactly when that option is strong (80+), safe (risk under 40)
/// and narrow (at most two lineups), and, unlocked, low health asks to keep
/// power.
pub proof fn lemma_first_augment_law(scores: Seq<ScoreView>, current_hp: int, d: AugmentDecisionView)
    requires
        forall|i: int| 0 <= i < scores.len() ==> i32::MIN <= #[trigger] scores[i].total_score <= i32::MAX,
        scores.len() == 0 ==> d == no_augment_decision(),
        scores.len() > 0 ==> exists|b: int|
            is_last_max(scores.map_values(|s: ScoreView| total_key(s)), b) && d == first_decision_for(
                scores[b],
                current_hp,
            ),
    ensures
        scores.len() == 0 ==> d.action == "take_fallback"@ && d.recommended == "无候选海克斯"@ && !d.lock_lineup,
        scores.len() > 0 ==> exists|b: int|
            #![trigger scores[b]]
            {
                let best = scores[b];
                let head = best.augment_name + " ("@ + int_text(best.total_score) + "分)"@;
                &&& 0 <= b < scores.len()
                &&& forall|j: int| 0 <= j < scores.len() ==> (#[trigger] scores[j]).total_score <= best.total_score
                &&& forall|j: int| b < j < scores.len() ==> (#[trigger] scores[j]).total_score < best.total_score
                &&& d.action == "take"@
                &&& d.recommended.len() >= head.len() && d.recommended.subrange(0, head.len() as int) == head
                &&& (d.lock_lineup <==> (best.total_score >= 80 && best.lock_risk < 40
                    && best.supported_lineup_ids.len() <= 2))
                &&& (!d.lock_lineup && current_hp < 50 ==> d.follow_up == "血量偏低，优先保战力，3-2 再确认方向"@)
            },
{
    if scores.len() > 0 {
        let keys = scores.map_values(|s: ScoreView| total_key(s));
        let b = choose|b: int| is_last_max(keys, b) && d == first_decision_for(scores[b], current_hp);
        let best = scores[b];
        let head = best.augment_name + " ("@ + int_text(best.total_score) + "分)"@;
        assert forall|j: int| 0 <= j < scores.len() implies (#[trigger] scores[j]).total_score <= best.total_score by {
            assert(!crate::ranking::key_lt(keys[b], keys[j]));
            assert(keys[j] == total_key(scores[j]));
            assert(keys[b] == total_key(best));
        }
        assert forall|j: int| b < j < scores.len() implies (#[trigger] scores[j]).total_score < best.total_score by {
            assert(crate::ranking::key_lt(keys[j], keys[b]));
            assert(keys[j] == total_key(scores[j]));
            assert(keys[b] == total_key(best));
        }
        if should_lock(best) && best.supported_lineup_ids.len() > 0 {
            let tail = " [可锁: "@ + joined(best.supported_lineup_ids, ", "@) + "]"@;
            assert((head + tail).subrange(0, head.len() as int) =~= head);
        } else {
            assert(d.recommended.subrange(0, head.len() as int) =~= head);
        }
    }
}

pub open spec fn score_views(s: Seq<AugmentScore>) -> Seq<ScoreView> {
    s.map_values(|x: AugmentScore| x@)
}

// ---------------------------------------------------------------------------
// Augment scores
// ---------------------------------------------------------------------------

/// A lineup recommends the augment.
pub open spec fn recommends_hex(p: LineupProfile, id: Seq<char>) -> bool {
    views(p.recommended_hex_ids@).contains(id)
}

/// A lineup recommends the augment or keeps it as a replacement.
pub open spec fn supports(p: LineupProfile, id: Seq<char>) -> bool {
    recommends_hex(p, id) || views(p.replacement_hex_ids@).contains(id)
}

/// The ids of the lineups that support the augment, in order.
pub open spec fn supporters(ps: Seq<LineupProfile>, id: Seq<char>) -> Seq<Seq<char>>
    decreases ps.len(),
{
    if ps.len() == 0 {
        Seq::empty()
    } else if supports(ps.last(), id) {
        supporters(ps.drop_last(), id).push(ps.last().lineup_id@)
    } else {
        supporters(ps.drop_last(), id)
    }
}

/// Why each supporting lineup counts: recommended or kept as a replacement.
pub open spec fn support_reasons(ps: Seq<LineupProfile>, id: Seq<char>) -> Seq<Seq<char>>
    decreases ps.len(),
{
    if ps.len() == 0 {
        Seq::empty()
    } else if recommends_hex(ps.last(), id) {
        support_reasons(ps.drop_last(), id).push(ps.last().name@ + " 推荐此海克斯"@)
    } else if supports(ps.last(), id) {
        support_reasons(ps.drop_last(), id).push(ps.last().name@ + " 备选此海克斯"@)
    } else {
        support_reasons(ps.drop_last(), id)
    }
}

/// A trait-commit tag for each lineup that recommends the augment.
pub open spec fn commit_tags(ps: Seq<LineupProfile>, id: Seq<char>) -> Seq<Seq<char>>
    decreases ps.len(),
{
    if ps.len() == 0 {
        Seq::empty()
    } else if recommends_hex(ps.last(), id) {
        commit_tags(ps.drop_last(), id).push("trait_commit"@)
    } else {
        commit_tags(ps.drop_last(), id)
    }
}

/// The share of lineups that support an augment, in whole percent, as the
/// float quotient times a hundred truncates (at least one lineup counted).
pub open spec fn coverage_percent(coverage: int, lineups: int) -> int {
    f64_percent_trunc(coverage, if lineups > 0 {
        lineups
    } else {
        1
    })
}

/// Risk of locking a direction by the number of supporting lineups.
pub open spec fn lock_risk_of(supported: int, first: bool) -> int {
    if supported <= 1 {
        if first { 75 } else { 40 }
    } else if supported <= 3 {
        if first { 45 } else { 20 }
    } else {
        15
    }
}

/// Value as a play-style enabler by the number of supporting lineups.
pub open spec fn playstyle_value_of(coverage: int) -> int {
    if coverage >= 2 {
        70
    } else if coverage == 1 {
        50
    } else {
        10
    }
}

/// The score before clamping: the first augment favours flexibility, later
/// ones favour lineup fit.
pub open spec fn raw_total(first: bool, coverage: int, lock_risk: int, playstyle: int, combat: int) -> int {
    if first {
        (coverage * 2 + (100 - lock_risk) + combat) / 3
    } else {
        (coverage * 3 + playstyle + combat) / 3
    }
}

pub open spec fn clamp100(x: int) -> int {
    if x < 0 {
        0
    } else if x > 100 {
        100
    } else {
        x
    }
}

pub open spec fn text_when(b: bool, t: Seq<char>) -> Seq<Seq<char>> {
    if b {
        seq![t]
    } else {
        Seq::empty()
    }
}

/// The score of an augment against the lineups.
pub open spec fn augment_score_spec(
    s: AugmentScore,
    id: Seq<char>,
    name: Seq<char>,
    ps: Seq<LineupProfile>,
    first: bool,
    strong: bool,
    weak: bool,
) -> bool {
    let sup = supporters(ps, id);
    let cov = sup.len() as int;
    let lc = coverage_percent(cov, ps.len() as int);
    let lr = lock_risk_of(cov, first);
    let pv = playstyle_value_of(cov);
    let cp = if strong { 60int } else if weak { 40int } else { 50int };
    let total = raw_total(first, lc, lr, pv, cp);
    &&& s.augment_id@ == id
    &&& s.augment_name@ == name
    &&& views(s.supported_lineup_ids@) == sup
    &&& s.lineup_coverage == lc
    &&& s.lock_risk == lr
    &&& s.playstyle_enable_value == pv
    &&& s.combat_power == cp
    &&& views(s.reasons@) == support_reasons(ps, id) + text_when(weak, "当前开局较弱，优先通用经济/装备海克斯"@)
    &&& views(s.tags@) == commit_tags(ps, id) + text_when(cov >= 2, "generic_combat"@) + text_when(weak, "generic_econ"@)
    &&& s.total_score == clamp100(total)
    &&& s.is_recommended == (total >= 50)
}

/// The supporting lineups of an augment, with why, and the trait-commit tags.
pub(crate) fn support_of(id: &str, profiles: &[LineupProfile]) -> (r: (Vec<String>, Vec<String>, Vec<String>))
    ensures
        views(r.0@) == supporters(profiles@, id@),
        views(r.1@) == support_reasons(profiles@, id@),
        views(r.2@) == commit_tags(profiles@, id@),
{
    let mut sup: Vec<String> = Vec::new();
    let mut reasons: Vec<String> = Vec::new();
    let mut tags: Vec<String> = Vec::new();
    let mut i: usize = 0;
    while i < profiles.len()
        invariant
            i <= profiles@.len(),
            views(sup@) == supporters(profiles@.subrange(0, i as int), id@),
            views(reasons@) == support_reasons(profiles@.subrange(0, i as int), id@),
            views(tags@) == commit_tags(profiles@.subrange(0, i as int), id@),
        decreases profiles@.len() - i,
    {
        assert(profiles@.subrange(0, i + 1).drop_last() =~= profiles@.subrange(0, i as int));
        assert(profiles@.subrange(0, i + 1).last() == profiles@[i as int]);
        let p = &profiles[i];
        let rec = list_has(&p.recommended_hex_ids, id);
        let rep = list_has(&p.replacement_hex_ids, id);
        let ghost (s0, r0, t0) = (views(sup@), views(reasons@), views(tags@));
        if rec {
            sup.push(p.lineup_id.clone());
            reasons.push(cat(p.name.as_str(), " 推荐此海克斯"));
            tags.push(owned("trait_commit"));
        } else if rep {
            sup.push(p.lineup_id.clone());
            reasons.push(cat(p.name.as_str(), " 备选此海克斯"));
        }
        assert(rec ==> views(sup@) =~= s0.push(p.lineup_id@));
        assert(rep ==> views(sup@) =~= s0.push(p.lineup_id@));
        assert(!rec && !rep ==> views(sup@) =~= s0);
        assert(rec ==> views(reasons@) =~= r0.push(p.name@ + " 推荐此海克斯"@));
        assert(!rec && rep ==> views(reasons@) =~= r0.push(p.name@ + " 备选此海克斯"@));
        assert(!rec && !rep ==> views(reasons@) =~= r0);
        assert(rec ==> views(tags@) =~= t0.push("trait_commit"@));
        assert(!rec ==> views(tags@) =~= t0);
        i = i + 1;
    }
    assert(profiles@.subrange(0, i as int) =~= profiles@);
    (sup, reasons, tags)
}

/// The share of lineups supporting an augment, in whole percent.
fn coverage_of(coverage: usize, lineups: usize) -> (r: i32)
    requires
        coverage <= lineups,
    ensures
        r == coverage_percent(coverage as int, lineups as int),
        0 <= r <= 4096,
{
    let most: u64 = if lineups == 0 {
        1
    } else {
        lineups as u64
    };
    percent_trunc(coverage as u64, most)
}

fn push_when(v: &mut Vec<String>, b: bool, t: &str)
    ensures
        views(final(v)@) == views(old(v)@) + text_when(b, t@),
{
    if b {
        v.push(owned(t));
        assert(views(v@) =~= views(old(v)@) + seq![t@]);
    } else {
        assert(views(v@) =~= views(old(v)@) + Seq::<Seq<char>>::empty());
    }
}

pub(crate) proof fn lemma_supporters_len(ps: Seq<LineupProfile>, id: Seq<char>)
    ensures
        supporters(ps, id).len() <= ps.len(),
    decreases ps.len(),
{
    if ps.len() > 0 {
        lemma_supporters_len(ps.drop_last(), id);
    }
}

impl AugmentFitScorer {
    /// Decision on the first augment: the last of the highest-scoring options
    /// is taken.
    pub fn first_augment_decision(scores: &[AugmentScore], current_hp: i32) -> (d: AugmentDecision)
        ensures
            scores@.len() == 0 ==> d@ == no_augment_decision(),
            scores@.len() > 0 ==> exists|b: int|
                is_last_max(score_views(scores@).map_values(|s: ScoreView| total_key(s)), b) && d@
                    == first_decision_for(score_views(scores@)[b], current_hp as int),
    {
        if scores.len() == 0 {
            return AugmentDecision {
                action: owned("take_fallback"),
                recommended: owned("无候选海克斯"),
                lock_lineup: false,
                follow_up: owned("等待后续海克斯选择"),
            };
        }
        let ghost sv = score_views(scores@);
        let ghost kv = sv.map_values(|s: ScoreView| total_key(s));
        let mut keys: Vec<Key3> = Vec::new();
        let mut i: usize = 0;
        while i < scores.len()
            invariant
                sv == score_views(scores@),
                kv == sv.map_values(|s: ScoreView| total_key(s)),
                i <= scores@.len(),
                keys@ == kv.subrange(0, i as int),
            decreases scores@.len() - i,
        {
            keys.push((scores[i].total_score as i64, 0i64, 0i64));
            assert(sv[i as int] == scores@[i as int]@);
            i = i + 1;
            assert(keys@ =~= kv.subrange(0, i as int));
        }
        assert(kv.subrange(0, i as int) =~= kv);
        let b = last_max(&keys);
        let best = &scores[b];
        assert(sv[b as int] == best@);
        let lock = best.total_score >= 80 && best.lock_risk < 40 && best.supported_lineup_ids.len() <= 2;
        let mut recommended = cat(best.augment_name.as_str(), " (");
        push_str(&mut recommended, int_to_text(best.total_score as i64).as_str());
        push_str(&mut recommended, "分)");
        if lock && best.supported_lineup_ids.len() > 0 {
            push_str(&mut recommended, " [可锁: ");
            let ids = join(&best.supported_lineup_ids, ", ");
            push_str(&mut recommended, ids.as_str());
            push_str(&mut recommended, "]");
        }
        let follow_up = if lock {
            owned("方向明确，后续优先匹配此阵容装备和棋子")
        } else if current_hp < 50 {
            owned("血量偏低，优先保战力，3-2 再确认方向")
        } else {
            owned("3-2 前根据来牌和装备确认方向")
        };
        AugmentDecision { action: owned("take"), recommended, lock_lineup: lock, follow_up }
    }
}

// ---------------------------------------------------------------------------
// Economy plan
// ---------------------------------------------------------------------------

pub struct EconomyView {
    pub action: Seq<char>,
    pub label: Seq<char>,
    pub target_gold: i32,
    pub reasons: Seq<Seq<char>>,
}

impl View for EconomyDecisionResult {
    type V = EconomyView;

    open spec fn view(&self) -> EconomyView {
        EconomyView {
            action: self.action@,
            label: self.label@,
            target_gold: self.target_gold,
            reasons: views(self.reasons@),
        }
    }
}

pub open spec fn econ(action: Seq<char>, label: Seq<char>, target_gold: i32, reasons: Seq<Seq<char>>) -> EconomyView {
    EconomyView { action, label, target_gold, reasons }
}

/// The economy action of a round: stop the bleeding below 35 health; keep a
/// reroll lineup's rhythm around its level; level up a locked lineup from
/// stage 3-5 with 40 gold; level on a win streak; save on a loss streak;
/// otherwise act by the gold on hand. Below 50 health the reasons start by
/// saying so.
pub open spec fn economy_plan(
    gold: i32,
    hp: i32,
    level: i32,
    streak: i32,
    stage_tenths: i32,
    locked: bool,
    reroll_tag: bool,
    reroll_level: Option<i32>,
) -> EconomyView {
    let low = if hp < 50 {
        seq!["血量偏低，减少贪经济"@]
    } else {
        seq![]
    };
    if hp < 35 {
        econ("roll_down_to_stabilize"@, "全力搜牌止血"@, 0, seq!["血量仅 "@ + int_text(hp as int) + "，必须止血"@])
    } else if reroll_tag && reroll_level is Some {
        let rl = reroll_level->0 as int;
        if level > rl {
            econ(
                "reroll_or_pivot"@,
                "卡 "@ + int_text(rl) + " 级 D 牌或考虑放弃"@,
                10,
                low.push("已超过赌狗推荐等级 "@ + int_text(rl) + "，应尽快 D 牌或放弃"@),
            )
        } else if level == rl {
            if gold >= 40 {
                econ("slow_roll"@, "卡 "@ + int_text(rl) + " 级慢 D"@, 30, low.push("卡 "@ + int_text(rl) + " 级赌狗，金币充裕可慢 D"@))
            } else {
                econ(
                    "slow_roll_tight"@,
                    "卡 "@ + int_text(rl) + " 级慢 D（经济紧张）"@,
                    20,
                    low.push("卡 "@ + int_text(rl) + " 级赌狗，金币紧张需控制"@),
                )
            }
        } else {
            econ("level_to_reroll"@, "升到 "@ + int_text(rl) + " 级"@, 30, low.push("需要升到 "@ + int_text(rl) + " 级开始 D 牌"@))
        }
    } else if locked && level < 8 && stage_tenths >= 35 && gold >= 40 {
        econ("level_up"@, "升人口找核心牌"@, 20, low.push("阵容已锁，金币充裕，优先升人口"@))
    } else if streak >= 2 && gold >= 30 {
        econ("level_for_streak"@, "升人口保连胜"@, 10, low.push(int_text(streak as int) + "-连胜，可提前升人口保连胜"@))
    } else if streak <= -2 {
        econ("save_interest"@, "保利息"@, 40, low.push(int_text(-(streak as int)) + "-连败，保利息优先"@))
    } else if gold >= 40 {
        econ("flexible"@, "弹性操作"@, 20, low.push("经济充裕，可选择性搜牌或升人口"@))
    } else if gold >= 20 {
        econ("save_interest"@, "保利息"@, 30, low.push("经济中等，优先保利息"@))
    } else {
        econ("save_all"@, "全力存钱"@, 20, low.push("经济紧张，不要 D 牌"@))
    }
}

/// A reroll lineup with a reroll level keeps its rhythm around that level
/// once health is 35 or more: below the level it levels up toward it
/// (keeping 30 gold), at the level it rolls slowly (keeping 30 gold with 40
/// or more, else 20), above it it rolls or pivots (keeping 10). A slow roll
/// is advised only at the reroll level of a reroll lineup.
pub proof fn lemma_reroll_rhythm(
    gold: i32,
    hp: i32,
    level: i32,
    streak: i32,
    stage_tenths: i32,
    locked: bool,
    reroll_tag: bool,
    reroll_level: Option<i32>,
)
    ensures
        ({
            let p = economy_plan(gold, hp, level, streak, stage_tenths, locked, reroll_tag, reroll_level);
            &&& hp >= 35 && reroll_tag && reroll_level is Some && level < reroll_level->0 ==> p.action
                == "level_to_reroll"@ && p.target_gold == 30
            &&& hp >= 35 && reroll_tag && reroll_level == Some(level) ==> (if gold >= 40 {
                p.action == "slow_roll"@ && p.target_gold == 30
            } else {
                p.action == "slow_roll_tight"@ && p.target_gold == 20
            })
            &&& hp >= 35 && reroll_tag && reroll_level is Some && level > reroll_level->0 ==> p.action
                == "reroll_or_pivot"@ && p.target_gold == 10
            &&& (p.action == "slow_roll"@ || p.action == "slow_roll_tight"@) ==> hp >= 35 && reroll_tag
                && reroll_level == Some(level)
        }),
{
    reveal_strlit("slow_roll");
    reveal_strlit("slow_roll_tight");
    reveal_strlit("roll_down_to_stabilize");
    reveal_strlit("reroll_or_pivot");
    reveal_strlit("level_to_reroll");
    reveal_strlit("level_up");
    reveal_strlit("level_for_streak");
    reveal_strlit("save_interest");
    reveal_strlit("flexible");
    reveal_strlit("save_all");
    let p = economy_plan(gold, hp, level, streak, stage_tenths, locked, reroll_tag, reroll_level);
    assert("slow_roll"@[0] == 's' && "slow_roll"@[1] == 'l' && "slow_roll_tight"@[0] == 's'
        && "slow_roll_tight"@[1] == 'l');
    assert("roll_down_to_stabilize"@[0] == 'r' && "reroll_or_pivot"@[0] == 'r' && "level_to_reroll"@[0] == 'l');
    assert("level_up"@[0] == 'l' && "level_for_streak"@[0] == 'l' && "flexible"@[0] == 'f');
    assert("save_interest"@[1] == 'a' && "save_all"@[1] == 'a');
    if p.action == "slow_roll"@ || p.action == "slow_roll_tight"@ {
        assert(p.action[0] == 's' && p.action[1] == 'l');
    }
}

/// Health comes first: below 35 health the plan is always to roll down to
/// stabilise, keeping no gold; from 35 to 49 every plan's reasons open by
/// warning that health is low.
pub proof fn lemma_health_first(
    gold: i32,
    hp: i32,
    level: i32,
    streak: i32,
    stage_tenths: i32,
    locked: bool,
    reroll_tag: bool,
    reroll_level: Option<i32>,
)
    ensures
        ({
            let p = economy_plan(gold, hp, level, streak, stage_tenths, locked, reroll_tag, reroll_level);
            &&& hp < 35 ==> p.action == "roll_down_to_stabilize"@ && p.target_gold == 0
            &&& 35 <= hp < 50 ==> p.reasons.len() >= 2 && p.reasons[0] == "血量偏低，减少贪经济"@
            &&& hp >= 50 ==> p.reasons.len() == 1
        }),
{
}

fn push_line(v: &mut Vec<String>, s: String)
    ensures
        views(final(v)@) == views(old(v)@).push(s@),
{
    let ghost before = views(v@);
    v.push(s);
    assert(views(v@) =~= before.push(s@));
}

fn result(action: &str, label: String, target_gold: i32, reasons: Vec<String>) -> (r: EconomyDecisionResult)
    ensures
        r@ == econ(action@, label@, target_gold, views(reasons@)),
{
    EconomyDecisionResult { action: owned(action), label, target_gold, reasons }
}

fn around(a: &str, n: i32, b: &str) -> (s: String)
    ensures
        s@ == a@ + int_text(n as int) + b@,
{
    let mut s = cat(a, int_to_text(n as i64).as_str());
    push_str(&mut s, b);
    s
}

fn streak_line(n: i64, b: &str) -> (s: String)
    ensures
        s@ == int_text(n as int) + b@,
{
    cat(int_to_text(n).as_str(), b)
}

impl EconomyPlanner {
    /// The economy action of a round. The round is given as stage × 10 +
    /// round (stage 3-5 is 35).
    pub fn plan(
        current_gold: i32,
        current_hp: i32,
        current_level: i32,
        current_streak: i32,
        round_stage_tenths: i32,
        lineup_locked: bool,
        has_reroll_tag: bool,
        reroll_level: Option<i32>,
    ) -> (r: EconomyDecisionResult)
        requires
            !(current_streak == i32::MIN && economy_plan(
                current_gold,
                current_hp,
                current_level,
                current_streak,
                round_stage_tenths,
                lineup_locked,
                has_reroll_tag,
                reroll_level,
            ).target_gold == 40),
        ensures
            r@ == economy_plan(
                current_gold,
                current_hp,
                current_level,
                current_streak,
                round_stage_tenths,
                lineup_locked,
                has_reroll_tag,
                reroll_level,
            ),
    {
        let mut reasons: Vec<String> = Vec::new();
        if current_hp < 35 {
            let line = around("血量仅 ", current_hp, "，必须止血");
            push_line(&mut reasons, line);
            assert(views(reasons@) =~= seq![line@]);
            return result("roll_down_to_stabilize", owned("全力搜牌止血"), 0, reasons);
        }
        if current_hp < 50 {
            push_line(&mut reasons, owned("血量偏低，减少贪经济"));
        }
        assert(views(reasons@) =~= (if current_hp < 50 {
            seq!["血量偏低，减少贪经济"@]
        } else {
            seq![]
        }));
        if has_reroll_tag {
            match reroll_level {
                Some(rl) => {
                    if current_level > rl {
                        push_line(&mut reasons, around("已超过赌狗推荐等级 ", rl, "，应尽快 D 牌或放弃"));
                        return result("reroll_or_pivot", around("卡 ", rl, " 级 D 牌或考虑放弃"), 10, reasons);
                    } else if current_level == rl {
                        if current_gold >= 40 {
                            push_line(&mut reasons, around("卡 ", rl, " 级赌狗，金币充裕可慢 D"));
                            return result("slow_roll", around("卡 ", rl, " 级慢 D"), 30, reasons);
                        } else {
                            push_line(&mut reasons, around("卡 ", rl, " 级赌狗，金币紧张需控制"));
                            return result("slow_roll_tight", around("卡 ", rl, " 级慢 D（经济紧张）"), 20, reasons);
                        }
                    } else {
                        push_line(&mut reasons, around("需要升到 ", rl, " 级开始 D 牌"));
                        return result("level_to_reroll", around("升到 ", rl, " 级"), 30, reasons);
                    }
                },
                None => {},
            }
        }
        if lineup_locked && current_level < 8 && round_stage_tenths >= 35 && current_gold >= 40 {
            push_line(&mut reasons, owned("阵容已锁，金币充裕，优先升人口"));
            return result("level_up", owned("升人口找核心牌"), 20, reasons);
        }
        if current_streak >= 2 && current_gold >= 30 {
            push_line(&mut reasons, streak_line(current_streak as i64, "-连胜，可提前升人口保连胜"));
            return result("level_for_streak", owned("升人口保连胜"), 10, reasons);
        }
        if current_streak <= -2 {
            push_line(&mut reasons, streak_line(-(current_streak as i64), "-连败，保利息优先"));
            return result("save_interest", owned("保利息"), 40, reasons);
        }
        if current_gold >= 40 {
            push_line(&mut reasons, owned("经济充裕，可选择性搜牌或升人口"));
            result("flexible", owned("弹性操作"), 20, reasons)
        } else if current_gold >= 20 {
            push_line(&mut reasons, owned("经济中等，优先保利息"));
            result("save_interest", owned("保利息"), 30, reasons)
        } else {
            push_line(&mut reasons, owned("经济紧张，不要 D 牌"));
            result("save_all", owned("全力存钱"), 20, reasons)
        }
    }
}

impl AugmentFitScorer {
    /// Scores candidate augments, given as (id, name), against the lineups.
    pub fn score(
        candidate_augments: &[(String, String)],
        profiles: &[LineupProfile],
        current_lineup_scores: &Vec<(String, i32)>,
        is_first_augment: bool,
        opening_is_strong: bool,
        opening_is_weak: bool,
    ) -> (r: Vec<AugmentScore>)
        ensures
            r@.len() == candidate_augments@.len(),
            forall|i: int|
                0 <= i < r@.len() ==> augment_score_spec(
                    #[trigger] r@[i],
                    candidate_augments@[i].0@,
                    candidate_augments@[i].1@,
                    profiles@,
                    is_first_augment,
                    opening_is_strong,
                    opening_is_weak,
                ),
    {
        let mut out: Vec<AugmentScore> = Vec::new();
        let mut k: usize = 0;
        while k < candidate_augments.len()
            invariant
                k <= candidate_augments@.len(),
                out@.len() == k,
                forall|i: int|
                    0 <= i < k ==> augment_score_spec(
                        #[trigger] out@[i],
                        candidate_augments@[i].0@,
                        candidate_augments@[i].1@,
                        profiles@,
                        is_first_augment,
                        opening_is_strong,
                        opening_is_weak,
                    ),
            decreases candidate_augments@.len() - k,
        {
            let (aug_id, aug_name) = (&candidate_augments[k].0, &candidate_augments[k].1);
            let (supported_ids, mut reasons, mut tags) = support_of(aug_id.as_str(), profiles);
            let coverage = supported_ids.len();
            proof {
                lemma_supporters_len(profiles@, aug_id@);
            }
            let lineup_coverage = coverage_of(coverage, profiles.len());
            let lock_risk: i32 = if coverage <= 1 {
                if is_first_augment { 75 } else { 40 }
            } else if coverage <= 3 {
                if is_first_augment { 45 } else { 20 }
            } else {
                15
            };
            let playstyle_value: i32 = if coverage >= 2 {
                70
            } else if coverage == 1 {
                50
            } else {
                10
            };
            let combat_power: i32 = if opening_is_strong {
                60
            } else if opening_is_weak {
                40
            } else {
                50
            };
            push_when(&mut tags, coverage >= 2, "generic_combat");
            push_when(&mut reasons, opening_is_weak, "当前开局较弱，优先通用经济/装备海克斯");
            push_when(&mut tags, opening_is_weak, "generic_econ");
            let total_score: i32 = if is_first_augment {
                (lineup_coverage * 2 + (100 - lock_risk) + combat_power) / 3
            } else {
                (lineup_coverage * 3 + playstyle_value + combat_power) / 3
            };
            let clamped: i32 = if total_score < 0 {
                0
            } else if total_score > 100 {
                100
            } else {
                total_score
            };
            let s = AugmentScore {
                augment_id: aug_id.clone(),
                augment_name: aug_name.clone(),
                total_score: clamped,
                combat_power,
                lineup_coverage,
                lock_risk,
                playstyle_enable_value: playstyle_value,
                is_recommended: total_score >= 50,
                tags,
                reasons,
                supported_lineup_ids: supported_ids,
            };
            out.push(s);
            k = k + 1;
        }
        out
    }
}

/// Lock risk from the interpreter, adjusted by coverage: three fifths of it
/// at 60% or more, unchanged at 30% or more, else raised by 15 up to 100.
pub open spec fn adjusted_lock_risk(coverage: int, risk: i32) -> int {
    if coverage >= 60 {
        div10_toward_zero(risk * 6)
    } else if coverage >= 30 {
        risk as int
    } else if risk + 15 < 100 {
        risk + 15
    } else {
        100
    }
}

/// Immediate power adjusted by the opening: +10 up to 100 when strong, -5
/// down to 0 when weak.
pub open spec fn adjusted_power(power: i32, strong: bool, weak: bool) -> int {
    if strong {
        if power + 10 < 100 { power + 10 } else { 100 }
    } else if weak {
        if power - 5 > 0 { power - 5 } else { 0 }
    } else {
        power as int
    }
}

/// The additions to an effect's adjustments stay within `i32`.
pub open spec fn effect_fits(e: AugmentEffect) -> bool {
    e.lock_risk <= i32::MAX - 15 && i32::MIN + 5 <= e.immediate_power <= i32::MAX - 10
}

/// The score of an interpreted augment against the lineups.
pub open spec fn effect_score_spec(
    s: AugmentScore,
    e: AugmentEffect,
    ps: Seq<LineupProfile>,
    first: bool,
    strong: bool,
    weak: bool,
) -> bool {
    let sup = supporters(ps, e.augment_id@);
    let cov = sup.len() as int;
    let lc = coverage_percent(cov, ps.len() as int);
    let lr = adjusted_lock_risk(lc, e.lock_risk);
    let tags = views(e.tags@);
    let pv = if tags.contains("reroll_enable"@) { clamp100(e.reroll_value as int) } else { playstyle_value_of(cov) };
    let cp = adjusted_power(e.immediate_power, strong, weak);
    let total = raw_total(first, lc, lr, pv, cp);
    let note = if cov >= 2 && !tags.contains("hero_commit"@) {
        "支持多套阵容，弹性好"@
    } else {
        "覆盖 "@ + int_text(cov) + " 套阵容"@
    };
    &&& s.augment_id@ == e.augment_id@
    &&& s.augment_name@ == e.name@
    &&& views(s.supported_lineup_ids@) == sup
    &&& s.lineup_coverage == lc
    &&& s.lock_risk == lr
    &&& s.playstyle_enable_value == pv
    &&& s.combat_power == cp
    &&& views(s.reasons@) == views(e.reason@).push(note)
    &&& views(s.tags@) == tags
    &&& s.total_score == clamp100(total)
    &&& s.is_recommended == (total >= 50)
}

fn adjust_lock(lineup_coverage: i32, lr: i32) -> (r: i64)
    requires
        lr <= i32::MAX - 15,
    ensures
        r == adjusted_lock_risk(lineup_coverage as int, lr),
        i32::MIN <= r <= i32::MAX,
{
    if lineup_coverage >= 60 {
        let x: i64 = lr as i64 * 6;
        if x >= 0 { x / 10 } else { -((-x) / 10) }
    } else if lineup_coverage >= 30 {
        lr as i64
    } else if lr + 15 < 100 {
        (lr + 15) as i64
    } else {
        100
    }
}

fn adjust_power(ip: i32, strong: bool, weak: bool) -> (r: i32)
    requires
        i32::MIN + 5 <= ip <= i32::MAX - 10,
    ensures
        r == adjusted_power(ip, strong, weak),
{
    if strong {
        if ip + 10 < 100 { ip + 10 } else { 100 }
    } else if weak {
        if ip - 5 > 0 { ip - 5 } else { 0 }
    } else {
        ip
    }
}

fn coverage_note(reason: &Vec<String>, tags: &Vec<String>, coverage: usize) -> (r: Vec<String>)
    ensures
        views(r@) == views(reason@).push(
            if coverage >= 2 && !views(tags@).contains("hero_commit"@) {
                "支持多套阵容，弹性好"@
            } else {
                "覆盖 "@ + int_text(coverage as int) + " 套阵容"@
            },
        ),
{
    let mut reasons = clone_strings(reason);
    let hero_commit = list_has(tags, "hero_commit");
    if coverage >= 2 && !hero_commit {
        reasons.push(owned("支持多套阵容，弹性好"));
    } else {
        let mut note = cat("覆盖 ", crate::text::nat_to_text(coverage as u64).as_str());
        push_str(&mut note, " 套阵容");
        reasons.push(note);
    }
    assert(views(reasons@) =~= views(reason@).push(
        if coverage >= 2 && !hero_commit { "支持多套阵容，弹性好"@ } else { "覆盖 "@ + int_text(coverage as int) + " 套阵容"@ },
    ));
    reasons
}

fn effect_score(
    effect: &AugmentEffect,
    profiles: &[LineupProfile],
    is_first_augment: bool,
    opening_is_strong: bool,
    opening_is_weak: bool,
) -> (s: AugmentScore)
    requires
        effect_fits(*effect),
    ensures
        effect_score_spec(s, *effect, profiles@, is_first_augment, opening_is_strong, opening_is_weak),
{
    let (supported_ids, _why, _commit) = support_of(effect.augment_id.as_str(), profiles);
    let coverage = supported_ids.len();
    proof {
        lemma_supporters_len(profiles@, effect.augment_id@);
    }
    let lineup_coverage = coverage_of(coverage, profiles.len());
    let lock_risk = adjust_lock(lineup_coverage, effect.lock_risk);
    let has_reroll = list_has(&effect.tags, "reroll_enable");
    let playstyle_value: i64 = if has_reroll {
        if effect.reroll_value < 0 {
            0
        } else if effect.reroll_value > 100 {
            100
        } else {
            effect.reroll_value as i64
        }
    } else if coverage >= 2 {
        70
    } else if coverage == 1 {
        50
    } else {
        10
    };
    let combat_power = adjust_power(effect.immediate_power, opening_is_strong, opening_is_weak);
    let reasons = coverage_note(&effect.reason, &effect.tags, coverage);
    let lc = lineup_coverage as i64;
    let total: i64 = if is_first_augment {
        (lc * 2 + (100 - lock_risk) + combat_power as i64) / 3
    } else {
        (lc * 3 + playstyle_value + combat_power as i64) / 3
    };
    let clamped: i32 = if total < 0 {
        0
    } else if total > 100 {
        100
    } else {
        total as i32
    };
    AugmentScore {
        augment_id: effect.augment_id.clone(),
        augment_name: effect.name.clone(),
        total_score: clamped,
        combat_power,
        lineup_coverage,
        lock_risk: lock_risk as i32,
        playstyle_enable_value: playstyle_value as i32,
        is_recommended: total >= 50,
        tags: clone_strings(&effect.tags),
        reasons,
        supported_lineup_ids: supported_ids,
    }
}

impl AugmentFitScorer {
    /// Scores interpreted augments against the lineups, taking over their
    /// tags, lock risk and immediate power.
    pub fn score_with_effects(
        effects: &[AugmentEffect],
        profiles: &[LineupProfile],
        current_lineup_scores: &Vec<(String, i32)>,
        is_first_augment: bool,
        opening_is_strong: bool,
        opening_is_weak: bool,
    ) -> (r: Vec<AugmentScore>)
        requires
            forall|i: int| 0 <= i < effects@.len() ==> effect_fits(#[trigger] effects@[i]),
        ensures
            r@.len() == effects@.len(),
            forall|i: int|
                0 <= i < r@.len() ==> effect_score_spec(
                    #[trigger] r@[i],
                    effects@[i],
                    profiles@,
                    is_first_augment,
                    opening_is_strong,
                    opening_is_weak,
                ),
    {
        let mut out: Vec<AugmentScore> = Vec::new();
        let mut k: usize = 0;
        while k < effects.len()
            invariant
                k <= effects@.len(),
                forall|i: int| 0 <= i < effects@.len() ==> effect_fits(#[trigger] effects@[i]),
                out@.len() == k,
                forall|i: int|
                    0 <= i < k ==> effect_score_spec(
                        #[trigger] out@[i],
                        effects@[i],
                        profiles@,
                        is_first_augment,
                        opening_is_strong,
                        opening_is_weak,
                    ),
            decreases effects@.len() - k,
        {
            out.push(effect_score(&effects[k], profiles, is_first_augment, opening_is_strong, opening_is_weak));
            k = k + 1;
        }
        out
    }
}

} // verus!
