//! The final advice with the knowledge layer: patch-adjusted lineup scores,
//! the augment reroll decision, the item holder plan and the comparison of
//! item sets, summed up in short actions and pivot conditions.
use vstd::prelude::*;
use crate::augment_economy_planner::{AugmentDecisionView, EconomyDecisionResult};
use crate::augment_reroll_scorer::{AugmentDecisionAction, AugmentRerollDecision, DecisionView};
use crate::decision_planner::{
    best_recommendations, best_three, economy_from, economy_text, is_stamp, item_from_direction, item_text,
    now_stamp, reroll_action_text, reroll_pick_text, strategy_for, strategy_text, OutputView, RecView,
};
use crate::holder_scorer::{opt_view, HolderAction, HolderPlan, HolderRecommendation, RecView as HolderView};
use crate::knowledge_types::PatchEntry;
use crate::opening_route_classifier::OpeningRouteResult;
use crate::patch_modifier::{adjusted_score, patch_fits, profile_for, PatchKnowledge, PatchModifier, ScoreView};
use crate::rule_types::{
    AugmentDecision, CombatActionSummary, HolderActionSummary, ItemDecision, KnowledgeActions, LineupProfile,
    LineupRecommendation, LineupScore, RuleOutput, TransitionDecision,
};
use crate::text::{cat, clone_strings, int_text, int_to_text, join, joined, owned, push_str, views};

verus! {

/// Plans the final advice with the knowledge layer.
pub struct KnowledgeDecisionPlanner;

/// What the plan reads of a comparison of two item sets: the score
/// difference, the winner and why.
#[derive(Debug, Clone)]
pub struct CombatValueDiff {
    pub score_diff: i32,
    pub winner: String,
    pub reasons: Vec<String>,
}

pub struct DiffView {
    pub score_diff: i32,
    pub winner: Seq<char>,
    pub reasons: Seq<Seq<char>>,
}

impl View for CombatValueDiff {
    type V = DiffView;

    open spec fn view(&self) -> DiffView {
        DiffView { score_diff: self.score_diff, winner: self.winner@, reasons: views(self.reasons@) }
    }
}

pub struct HolderSummaryView {
    pub item: Seq<char>,
    pub temporary_holder: Seq<char>,
    pub final_holder: Option<Seq<char>>,
    pub action: Seq<char>,
    pub reason: Seq<char>,
}

pub struct KnowledgeView {
    pub holder: Option<HolderSummaryView>,
    pub combat: Option<(Seq<char>, i32, Seq<char>)>,
    pub patch: Seq<Seq<char>>,
    pub short_explanations: Seq<Seq<char>>,
}

impl View for KnowledgeActions {
    type V = KnowledgeView;

    open spec fn view(&self) -> KnowledgeView {
        KnowledgeView {
            holder: match self.holder {
                Some(h) => Some(
                    HolderSummaryView {
                        item: h.item@,
                        temporary_holder: h.temporary_holder@,
                        final_holder: opt_view(h.final_holder),
                        action: h.action@,
                        reason: h.reason@,
                    },
                ),
                None => None,
            },
            combat: match self.combat {
                Some(c) => Some((c.winner@, c.score_diff, c.reason@)),
                None => None,
            },
            patch: views(self.patch@),
            short_explanations: views(self.short_explanations@),
        }
    }
}

// ---------------------------------------------------------------------------
// Parts of the plan
// ---------------------------------------------------------------------------

/// The best holder advice of an optional plan.
pub open spec fn best_holder(plan: Option<HolderPlan>) -> Option<HolderView> {
    match plan {
        Some(p) => match p.best {
            Some(b) => Some(b@),
            None => None,
        },
        None => None,
    }
}

pub open spec fn holder_action_text(a: HolderAction) -> Seq<char> {
    match a {
        HolderAction::EquipNow => "equip_now"@,
        HolderAction::WaitForTarget => "wait_for_target"@,
    }
}

/// The item advice: the best holder advice when there is one, with the item
/// set comparison where given; the item direction otherwise.
pub open spec fn item_advice(dir: Seq<char>, best: Option<HolderView>, diff: Option<DiffView>) -> (Seq<char>, Seq<char>) {
    match best {
        Some(b) => {
            let fin = match b.final_holder_name {
                Some(n) => "，后续转给"@ + n,
                None => Seq::empty(),
            };
            let base = b.item_name + "给"@ + b.temporary_holder_name + fin + "；"@ + joined(b.reasons, "; "@);
            (
                holder_action_text(b.action),
                match diff {
                    Some(d) => base + "；收益比较 "@ + int_text(d.score_diff as int) + " 分"@,
                    None => base,
                },
            )
        },
        None => item_text(dir),
    }
}

/// The augment advice of a reroll decision: the direction is locked at a
/// lock risk of 35 or less.
pub open spec fn knowledge_augment(d: Option<DecisionView>) -> AugmentDecisionView {
    match d {
        Some(d) => AugmentDecisionView {
            action: reroll_action_text(d.action),
            recommended: reroll_pick_text(d.action, d.recommended_augment_name),
            lock_lineup: d.lock_risk <= 35,
            follow_up: joined(d.reason, "; "@),
        },
        None => AugmentDecisionView {
            action: "take"@,
            recommended: "选择当前最高分海克斯"@,
            lock_lineup: false,
            follow_up: "保留阵容弹性"@,
        },
    }
}

/// The transition advice: carried by the best temporary holder, stopping the
/// bleeding below 45 health.
pub open spec fn knowledge_transition(best: Option<HolderView>, hp: int) -> (Seq<char>, Seq<char>, Seq<char>) {
    (
        match best {
            Some(b) => b.temporary_holder_name + " 承载过渡"@,
            None => "按当前最高分阵容过渡"@,
        },
        if hp < 45 { "立即止血"@ } else { "2-6"@ },
        if hp < 45 { "当前回合"@ } else { "3-2"@ },
    )
}

/// A patch change in one line.
pub open spec fn patch_line(e: PatchEntry) -> Seq<char> {
    e.target_name@ + " "@ + e.change_type@ + " "@ + int_text(e.impact_score as int) + "："@ + e.reason@
}

pub open spec fn text_when(b: bool, t: Seq<char>) -> Seq<Seq<char>> {
    if b {
        seq![t]
    } else {
        Seq::empty()
    }
}

/// The short explanations: the augment decision, the holder move and the
/// best lineup, where there are.
pub open spec fn explanations(d: Option<DecisionView>, best: Option<HolderView>, recs: Seq<RecView>) -> Seq<Seq<char>> {
    (match d {
        Some(d) => seq![
            match d.action {
                AugmentDecisionAction::Take => "当前海克斯达到阈值，直接拿"@,
                AugmentDecisionAction::Reroll => "当前三个海克斯低于阈值，建议刷新"@,
                AugmentDecisionAction::TakeFallback => "刷新价值不足，兜底拿覆盖最高项"@,
            },
        ],
        None => Seq::empty(),
    }) + (match best {
        Some(b) => seq![b.item_name + " 先给 "@ + b.temporary_holder_name],
        None => Seq::empty(),
    }) + (if recs.len() > 0 {
        seq!["当前优先阵容 "@ + recs[0].name + "，评分 "@ + int_text(recs[0].score as int)]
    } else {
        Seq::empty()
    })
}

/// The knowledge actions of a plan.
pub open spec fn actions_of(
    k: Option<PatchKnowledge>,
    d: Option<DecisionView>,
    best: Option<HolderView>,
    diff: Option<DiffView>,
    recs: Seq<RecView>,
) -> KnowledgeView {
    KnowledgeView {
        holder: match best {
            Some(b) => Some(
                HolderSummaryView {
                    item: b.item_name,
                    temporary_holder: b.temporary_holder_name,
                    final_holder: b.final_holder_name,
                    action: holder_action_text(b.action),
                    reason: joined(b.reasons, "; "@),
                },
            ),
            None => None,
        },
        combat: match diff {
            Some(x) => Some((x.winner, x.score_diff, joined(x.reasons, "; "@))),
            None => None,
        },
        patch: match k {
            Some(k) => k.entries@.map_values(|e: PatchEntry| patch_line(e)),
            None => Seq::empty(),
        },
        short_explanations: explanations(d, best, recs),
    }
}

/// The pivot conditions: health under 45, a lineup with poor item fit, a
/// holder waiting for its target, and an item set more than 10 behind.
pub open spec fn knowledge_pivots(
    hp: int,
    scores: Seq<ScoreView>,
    best: Option<HolderView>,
    diff: Option<DiffView>,
) -> Seq<Seq<char>> {
    text_when(hp < 45, "血量低于 45，优先止血"@) + text_when(
        exists|i: int| 0 <= i < scores.len() && (#[trigger] scores[i]).item_fit_score < 45,
        "装备适配偏低，考虑转向更吃当前装备的阵容"@,
    ) + text_when(
        best matches Some(b) && b.action == HolderAction::WaitForTarget,
        "当前承载者收益不足，等待目标主C或主坦"@,
    ) + text_when(diff matches Some(x) && x.score_diff < -10, "收益估算显示当前装备组合落后，优先改合替代装"@)
}

/// The lineup scores after the patch changes, where there are any.
pub open spec fn scores_after_patch(
    scores: Seq<LineupScore>,
    profiles: Seq<LineupProfile>,
    k: Option<PatchKnowledge>,
) -> Seq<ScoreView> {
    Seq::new(
        scores.len(),
        |i: int|
            match k {
                Some(k) => match profile_for(profiles, scores[i].lineup_id@) {
                    Some(p) => adjusted_score(scores[i]@, p, k.entries@),
                    None => scores[i]@,
                },
                None => scores[i]@,
            },
    )
}

/// The patch changes fit every score.
pub open spec fn knowledge_fits(scores: Seq<LineupScore>, profiles: Seq<LineupProfile>, k: Option<PatchKnowledge>) -> bool {
    k matches Some(k) ==> forall|i: int|
        0 <= i < scores.len() ==> match profile_for(profiles, (#[trigger] scores[i]).lineup_id@) {
            Some(p) => patch_fits(scores[i]@, p, k.entries@),
            None => true,
        }
}

// ---------------------------------------------------------------------------
// Computing the parts
// ---------------------------------------------------------------------------

fn copy_score(s: &LineupScore) -> (r: LineupScore)
    ensures
        r@ == s@,
{
    LineupScore {
        lineup_id: s.lineup_id.clone(),
        name: s.name.clone(),
        total_score: s.total_score,
        base_score: s.base_score,
        item_fit_score: s.item_fit_score,
        champion_hit_score: s.champion_hit_score,
        augment_fit_score: s.augment_fit_score,
        trait_fit_score: s.trait_fit_score,
        stage_fit_score: s.stage_fit_score,
        economy_fit_score: s.economy_fit_score,
        health_safety_score: s.health_safety_score,
        playstyle_switch_score: s.playstyle_switch_score,
        rival_penalty: s.rival_penalty,
        difficulty_penalty: s.difficulty_penalty,
        reasons: clone_strings(&s.reasons),
        risks: clone_strings(&s.risks),
        requires_augment: s.requires_augment,
    }
}

fn patched_scores(scores: &[LineupScore], profiles: &[LineupProfile], k: Option<&PatchKnowledge>) -> (r: Vec<LineupScore>)
    requires
        knowledge_fits(
            scores@,
            profiles@,
            match k {
                Some(x) => Some(*x),
                None => None,
            },
        ),
    ensures
        r@.map_values(|x: LineupScore| x@) == scores_after_patch(
            scores@,
            profiles@,
            match k {
                Some(x) => Some(*x),
                None => None,
            },
        ),
{
    let ghost ko = match k {
        Some(x) => Some(*x),
        None => None,
    };
    match k {
        Some(knowledge) => {
            let r = PatchModifier::apply_to_scores(scores, profiles, knowledge);
            assert(r@.map_values(|x: LineupScore| x@) =~= scores_after_patch(scores@, profiles@, ko));
            r
        },
        None => {
            let mut r: Vec<LineupScore> = Vec::new();
            let mut i: usize = 0;
            while i < scores.len()
                invariant
                    i <= scores@.len(),
                    r@.len() == i,
                    forall|j: int| 0 <= j < i ==> (#[trigger] r@[j])@ == scores@[j]@,
                decreases scores@.len() - i,
            {
                r.push(copy_score(&scores[i]));
                i = i + 1;
            }
            assert(r@.map_values(|x: LineupScore| x@) =~= scores_after_patch(scores@, profiles@, ko));
            r
        },
    }
}

fn best_of(plan: Option<&HolderPlan>) -> (r: Option<&HolderRecommendation>)
    ensures
        match r {
            Some(b) => best_holder(
                match plan {
                    Some(p) => Some(*p),
                    None => None,
                },
            ) == Some(b@),
            None => best_holder(
                match plan {
                    Some(p) => Some(*p),
                    None => None,
                },
            ) is None,
        },
{
    match plan {
        Some(p) => match &p.best {
            Some(b) => Some(b),
            None => None,
        },
        None => None,
    }
}

fn holder_action_name(a: HolderAction) -> (r: String)
    ensures
        r@ == holder_action_text(a),
{
    match a {
        HolderAction::EquipNow => owned("equip_now"),
        HolderAction::WaitForTarget => owned("wait_for_target"),
    }
}

pub open spec fn diff_view(d: Option<&CombatValueDiff>) -> Option<DiffView> {
    match d {
        Some(x) => Some(x@),
        None => None,
    }
}

pub open spec fn holder_view(b: Option<&HolderRecommendation>) -> Option<HolderView> {
    match b {
        Some(x) => Some(x@),
        None => None,
    }
}

fn item_decision(dir: &str, best: Option<&HolderRecommendation>, diff: Option<&CombatValueDiff>) -> (d: ItemDecision)
    ensures
        (d.action@, d.reason@) == item_advice(dir@, holder_view(best), diff_view(diff)),
{
    match best {
        Some(b) => {
            let mut reason = cat(b.item_name.as_str(), "给");
            push_str(&mut reason, b.temporary_holder_name.as_str());
            match &b.final_holder_name {
                Some(n) => {
                    push_str(&mut reason, "，后续转给");
                    push_str(&mut reason, n.as_str());
                },
                None => {},
            }
            push_str(&mut reason, "；");
            push_str(&mut reason, join(&b.reasons, "; ").as_str());
            match diff {
                Some(x) => {
                    push_str(&mut reason, "；收益比较 ");
                    push_str(&mut reason, int_to_text(x.score_diff as i64).as_str());
                    push_str(&mut reason, " 分");
                },
                None => {},
            }
            ItemDecision { action: holder_action_name(b.action), reason }
        },
        None => item_from_direction(dir),
    }
}

fn augment_of(d: Option<&AugmentRerollDecision>) -> (r: AugmentDecision)
    ensures
        r@ == knowledge_augment(
            match d {
                Some(x) => Some(x@),
                None => None,
            },
        ),
{
    match d {
        Some(decision) => {
            let action = match decision.action {
                AugmentDecisionAction::Take => owned("take"),
                AugmentDecisionAction::Reroll => owned("reroll"),
                AugmentDecisionAction::TakeFallback => owned("take_fallback"),
            };
            let recommended = match decision.action {
                AugmentDecisionAction::Take => match &decision.recommended_augment_name {
                    Some(name) => cat("拿 ", name.as_str()),
                    None => owned("拿当前最高分海克斯"),
                },
                AugmentDecisionAction::Reroll => owned("刷新当前三个海克斯"),
                AugmentDecisionAction::TakeFallback => match &decision.recommended_augment_name {
                    Some(name) => cat("兜底拿 ", name.as_str()),
                    None => owned("兜底拿锁方向风险最低的海克斯"),
                },
            };
            AugmentDecision {
                action,
                recommended,
                lock_lineup: decision.lock_risk <= 35,
                follow_up: join(&decision.reason, "; "),
            }
        },
        None => AugmentDecision {
            action: owned("take"),
            recommended: owned("选择当前最高分海克斯"),
            lock_lineup: false,
            follow_up: owned("保留阵容弹性"),
        },
    }
}

fn transition_of(best: Option<&HolderRecommendation>, hp: i32) -> (t: TransitionDecision)
    ensures
        t@ == knowledge_transition(holder_view(best), hp as int),
{
    let route = match best {
        Some(b) => cat(b.temporary_holder_name.as_str(), " 承载过渡"),
        None => owned("按当前最高分阵容过渡"),
    };
    TransitionDecision {
        route,
        target_damage_per_round: if hp < 45 { owned("立即止血") } else { owned("2-6") },
        stop_loss_stage: if hp < 45 { owned("当前回合") } else { owned("3-2") },
    }
}

fn patch_lines(k: Option<&PatchKnowledge>) -> (r: Vec<String>)
    ensures
        views(r@) == match k {
            Some(k) => k.entries@.map_values(|e: PatchEntry| patch_line(e)),
            None => Seq::empty(),
        },
{
    let mut r: Vec<String> = Vec::new();
    match k {
        Some(k) => {
            let mut i: usize = 0;
            while i < k.entries.len()
                invariant
                    i <= k.entries@.len(),
                    views(r@) == k.entries@.subrange(0, i as int).map_values(|e: PatchEntry| patch_line(e)),
                decreases k.entries@.len() - i,
            {
                let e = &k.entries[i];
                let mut line = cat(e.target_name.as_str(), " ");
                push_str(&mut line, e.change_type.as_str());
                push_str(&mut line, " ");
                push_str(&mut line, int_to_text(e.impact_score as i64).as_str());
                push_str(&mut line, "：");
                push_str(&mut line, e.reason.as_str());
                let ghost before = views(r@);
                let ghost lv = line@;
                r.push(line);
                assert(views(r@) =~= before.push(lv));
                i = i + 1;
                assert(k.entries@.subrange(0, i as int).map_values(|e: PatchEntry| patch_line(e)) =~= k.entries@.subrange(
                    0,
                    i - 1,
                ).map_values(|e: PatchEntry| patch_line(e)).push(lv));
            }
            assert(k.entries@.subrange(0, i as int) =~= k.entries@);
        },
        None => {
            assert(views(r@) =~= Seq::<Seq<char>>::empty());
        },
    }
    r
}

fn knowledge_actions_of(
    k: Option<&PatchKnowledge>,
    d: Option<&AugmentRerollDecision>,
    best: Option<&HolderRecommendation>,
    diff: Option<&CombatValueDiff>,
    recs: &Vec<LineupRecommendation>,
) -> (r: KnowledgeActions)
    ensures
        r@ == actions_of(
            match k {
                Some(x) => Some(*x),
                None => None,
            },
            match d {
                Some(x) => Some(x@),
                None => None,
            },
            holder_view(best),
            diff_view(diff),
            recs@.map_values(|x: LineupRecommendation| x@),
        ),
{
    let holder = match best {
        Some(b) => Some(
            HolderActionSummary {
                item: b.item_name.clone(),
                temporary_holder: b.temporary_holder_name.clone(),
                final_holder: match &b.final_holder_name {
                    Some(n) => Some(n.clone()),
                    None => None,
                },
                action: holder_action_name(b.action),
                reason: join(&b.reasons, "; "),
            },
        ),
        None => None,
    };
    let combat = match diff {
        Some(x) => Some(CombatActionSummary { winner: x.winner.clone(), score_diff: x.score_diff, reason: join(&x.reasons, "; ") }),
        None => None,
    };
    let mut notes: Vec<String> = Vec::new();
    match d {
        Some(decision) => {
            let t = match decision.action {
                AugmentDecisionAction::Take => owned("当前海克斯达到阈值，直接拿"),
                AugmentDecisionAction::Reroll => owned("当前三个海克斯低于阈值，建议刷新"),
                AugmentDecisionAction::TakeFallback => owned("刷新价值不足，兜底拿覆盖最高项"),
            };
            notes.push(t);
        },
        None => {},
    }
    let ghost n1 = views(notes@);
    match best {
        Some(b) => {
            let mut t = cat(b.item_name.as_str(), " 先给 ");
            push_str(&mut t, b.temporary_holder_name.as_str());
            let ghost tv = t@;
            notes.push(t);
            assert(views(notes@) =~= n1.push(tv));
        },
        None => {},
    }
    let ghost n2 = views(notes@);
    if recs.len() > 0 {
        let mut t = cat("当前优先阵容 ", recs[0].name.as_str());
        push_str(&mut t, "，评分 ");
        push_str(&mut t, int_to_text(recs[0].score as i64).as_str());
        let ghost tv = t@;
        notes.push(t);
        assert(views(notes@) =~= n2.push(tv));
    }
    let r = KnowledgeActions { holder, combat, patch: patch_lines(k), short_explanations: notes };
    assert(r@.short_explanations =~= explanations(
        match d {
            Some(x) => Some(x@),
            None => None,
        },
        holder_view(best),
        recs@.map_values(|x: LineupRecommendation| x@),
    ));
    r
}

fn pivots_of(hp: i32, scores: &Vec<LineupScore>, best: Option<&HolderRecommendation>, diff: Option<&CombatValueDiff>) -> (r: Vec<
    String,
>)
    ensures
        views(r@) == knowledge_pivots(hp as int, scores@.map_values(|x: LineupScore| x@), holder_view(best), diff_view(diff)),
{
    let ghost sv = scores@.map_values(|x: LineupScore| x@);
    let mut r: Vec<String> = Vec::new();
    if hp < 45 {
        r.push(owned("血量低于 45，优先止血"));
    }
    let mut poor = false;
    let mut i: usize = 0;
    while i < scores.len()
        invariant
            sv == scores@.map_values(|x: LineupScore| x@),
            i <= scores@.len(),
            poor == exists|j: int| 0 <= j < i && (#[trigger] sv[j]).item_fit_score < 45,
        decreases scores@.len() - i,
    {
        if scores[i].item_fit_score < 45 {
            assert(sv[i as int].item_fit_score < 45);
            poor = true;
        }
        i = i + 1;
    }
    if poor {
        r.push(owned("装备适配偏低，考虑转向更吃当前装备的阵容"));
    }
    let waiting = match best {
        Some(b) => b.action == HolderAction::WaitForTarget,
        None => false,
    };
    if waiting {
        r.push(owned("当前承载者收益不足，等待目标主C或主坦"));
    }
    let behind = match diff {
        Some(x) => x.score_diff < -10,
        None => false,
    };
    if behind {
        r.push(owned("收益估算显示当前装备组合落后，优先改合替代装"));
    }
    assert(views(r@) =~= knowledge_pivots(hp as int, sv, holder_view(best), diff_view(diff)));
    r
}

/// Everything of a knowledge plan but its time stamp.
pub open spec fn knowledge_planned<F>(
    o: OutputView<F>,
    acts: KnowledgeView,
    opening: OpeningRouteResult,
    scores: Seq<LineupScore>,
    profiles: Seq<LineupProfile>,
    k: Option<PatchKnowledge>,
    dir: Seq<char>,
    econ: EconomyDecisionResult,
    d: Option<DecisionView>,
    best: Option<HolderView>,
    diff: Option<DiffView>,
    hp: int,
) -> bool {
    let adjusted = scores_after_patch(scores, profiles, k);
    &&& best_three(adjusted, Seq::empty(), o.recommendations)
    &&& o.strategy == strategy_text(opening.route)
    &&& o.economy == economy_text(econ)
    &&& o.item == item_advice(dir, best, diff)
    &&& o.augment == knowledge_augment(d)
    &&& o.transition == knowledge_transition(best, hp)
    &&& o.pivots == knowledge_pivots(hp, adjusted, best, diff)
    &&& o.fight_outcome.is_none()
    &&& o.has_knowledge_actions
    &&& acts == actions_of(k, d, best, diff, o.recommendations)
    &&& o.engine_version == "0.7.0"@
}

impl KnowledgeDecisionPlanner {
    /// The advice with the knowledge layer, with a given time stamp.
    pub fn plan_at<F>(
        opening: &OpeningRouteResult,
        lineup_scores: &[LineupScore],
        profiles: &[LineupProfile],
        patch_knowledge: Option<&PatchKnowledge>,
        item_fit_direction: &str,
        economy_result: &EconomyDecisionResult,
        augment_reroll: Option<&AugmentRerollDecision>,
        holder_plan: Option<&HolderPlan>,
        combat_value_diff: Option<&CombatValueDiff>,
        current_hp: i32,
        generated_at: String,
    ) -> (r: RuleOutput<F>)
        requires
            knowledge_fits(
                lineup_scores@,
                profiles@,
                match patch_knowledge {
                    Some(x) => Some(*x),
                    None => None,
                },
            ),
        ensures
            r.knowledge_actions matches Some(a) && knowledge_planned(
                r@,
                a@,
                *opening,
                lineup_scores@,
                profiles@,
                match patch_knowledge {
                    Some(x) => Some(*x),
                    None => None,
                },
                item_fit_direction@,
                *economy_result,
                match augment_reroll {
                    Some(x) => Some(x@),
                    None => None,
                },
                best_holder(
                    match holder_plan {
                        Some(p) => Some(*p),
                        None => None,
                    },
                ),
                diff_view(combat_value_diff),
                current_hp as int,
            ),
            r@.generated_at == generated_at@,
    {
        let adjusted = patched_scores(lineup_scores, profiles, patch_knowledge);
        let none: Vec<String> = Vec::new();
        let recs = best_recommendations(adjusted.as_slice(), &none);
        assert(views(none@) =~= Seq::<Seq<char>>::empty());
        let best = best_of(holder_plan);
        let actions = knowledge_actions_of(patch_knowledge, augment_reroll, best, combat_value_diff, &recs);
        let pivots = pivots_of(current_hp, &adjusted, best, combat_value_diff);
        let r = RuleOutput {
            strategy: strategy_for(opening.route),
            lineup_recommendations: recs,
            economy_action: economy_from(economy_result),
            item_action: item_decision(item_fit_direction, best, combat_value_diff),
            augment_action: augment_of(augment_reroll),
            transition_action: transition_of(best, current_hp),
            pivot_conditions: pivots,
            fight_outcome: None,
            knowledge_actions: Some(actions),
            generated_at,
            engine_version: owned("0.7.0"),
        };
        r
    }

    /// The advice with the knowledge layer, stamped with the current time.
    pub fn plan<F>(
        opening: &OpeningRouteResult,
        lineup_scores: &[LineupScore],
        profiles: &[LineupProfile],
        patch_knowledge: Option<&PatchKnowledge>,
        item_fit_direction: &str,
        economy_result: &EconomyDecisionResult,
        augment_reroll: Option<&AugmentRerollDecision>,
        holder_plan: Option<&HolderPlan>,
        combat_value_diff: Option<&CombatValueDiff>,
        current_hp: i32,
    ) -> (r: RuleOutput<F>)
        requires
            knowledge_fits(
                lineup_scores@,
                profiles@,
                match patch_knowledge {
                    Some(x) => Some(*x),
                    None => None,
                },
            ),
        ensures
            r.knowledge_actions matches Some(a) && knowledge_planned(
                r@,
                a@,
                *opening,
                lineup_scores@,
                profiles@,
                match patch_knowledge {
                    Some(x) => Some(*x),
                    None => None,
                },
                item_fit_direction@,
                *economy_result,
                match augment_reroll {
                    Some(x) => Some(x@),
                    None => None,
                },
                best_holder(
                    match holder_plan {
                        Some(p) => Some(*p),
                        None => None,
                    },
                ),
                diff_view(combat_value_diff),
                current_hp as int,
            ),
            is_stamp(r@.generated_at),
    {
        Self::plan_at(
            opening,
            lineup_scores,
            profiles,
            patch_knowledge,
            item_fit_direction,
            economy_result,
            augment_reroll,
            holder_plan,
            combat_value_diff,
            current_hp,
            now_stamp(),
        )
    }
}

} // verus!
