//! Environment adjustments of item value: opponents that heal a lot, thick
//! frontlines and burst raise the worth of anti-heal, shred and survival
//! items.
use vstd::prelude::*;
use crate::item_conflict_scorer::ConflictEnvironment;
use crate::knowledge_types::ItemValueProfile;
use crate::text::{list_has, owned, str_eq, views};

verus! {

/// Bonuses of the environment adjustments.
#[derive(Debug, Clone, Copy, PartialEq, Eq, Structural)]
pub struct EnvironmentWeights {
    pub heal_heavy_anti_heal: i32,
    pub frontline_thick_armor_shred: i32,
    pub frontline_thick_mr_shred: i32,
    pub burst_heavy_survival: i32,
    pub own_ad_armor_shred: i32,
    pub own_ap_mr_shred: i32,
}

impl Default for EnvironmentWeights {
    fn default() -> (r: Self)
        ensures
            r == (EnvironmentWeights {
                heal_heavy_anti_heal: 18,
                frontline_thick_armor_shred: 16,
                frontline_thick_mr_shred: 16,
                burst_heavy_survival: 12,
                own_ad_armor_shred: 8,
                own_ap_mr_shred: 8,
            }),
    {
        EnvironmentWeights {
            heal_heavy_anti_heal: 18,
            frontline_thick_armor_shred: 16,
            frontline_thick_mr_shred: 16,
            burst_heavy_survival: 12,
            own_ad_armor_shred: 8,
            own_ap_mr_shred: 8,
        }
    }
}

/// The environment bonus of one item, with its reasons.
#[derive(Debug, Clone)]
pub struct EnvironmentItemModifier {
    pub score: i32,
    pub reasons: Vec<String>,
}

/// Scores items against the environment.
pub struct EnvironmentModifierScorer {
    pub weights: EnvironmentWeights,
}

/// An item carries a tag: among its effect tags, or as its conflict or
/// replacement group.
pub open spec fn carries_tag(item: ItemValueProfile, tag: Seq<char>) -> bool {
    views(item.effect_tags@).contains(tag) || item.conflict_group@ == tag || item.replacement_group@ == tag
}

/// The bonus of one adjustment, 0 when it does not apply.
pub open spec fn part(on: bool, bonus: i32) -> int {
    if on {
        bonus as int
    } else {
        0
    }
}

/// The reason of one adjustment, when it applies.
pub open spec fn reason_if(on: bool, reason: Seq<char>) -> Seq<Seq<char>> {
    if on {
        seq![reason]
    } else {
        seq![]
    }
}

/// Which adjustments apply, in order: anti-heal against healing, armor
/// shred against thick frontlines and for physical teams, magic-resist
/// shred against thick frontlines and for magic teams, survival against
/// burst.
pub open spec fn conditions(item: ItemValueProfile, env: ConflictEnvironment) -> Seq<bool> {
    let armor = carries_tag(item, "armor_shred"@);
    let mr = carries_tag(item, "mr_shred"@);
    seq![
        env.opponent_heal_heavy && carries_tag(item, "anti_heal"@),
        env.opponent_frontline_thick && armor,
        env.own_ad_heavy && armor,
        env.opponent_frontline_thick && mr,
        env.own_ap_heavy && mr,
        env.opponent_burst_heavy && (carries_tag(item, "shield_survival"@) || carries_tag(item, "sustain"@)),
    ]
}

/// The environment bonus of an item: the sum of the bonuses of the
/// adjustments that apply.
pub open spec fn env_bonus(w: EnvironmentWeights, item: ItemValueProfile, env: ConflictEnvironment) -> int {
    let c = conditions(item, env);
    part(c[0], w.heal_heavy_anti_heal) + part(c[1], w.frontline_thick_armor_shred) + part(c[2], w.own_ad_armor_shred)
        + part(c[3], w.frontline_thick_mr_shred) + part(c[4], w.own_ap_mr_shred) + part(c[5], w.burst_heavy_survival)
}

/// The reasons of the adjustments that apply, in order.
pub open spec fn env_reasons(item: ItemValueProfile, env: ConflictEnvironment) -> Seq<Seq<char>> {
    let c = conditions(item, env);
    reason_if(c[0], "对手回复多，重伤价值提高"@) + reason_if(c[1], "对手前排厚，破甲价值提高"@) + reason_if(
        c[2],
        "己方物理输出占比高，破甲收益提高"@,
    ) + reason_if(c[3], "对手前排厚，魔抗击碎价值提高"@) + reason_if(c[4], "己方法系输出占比高，魔抗击碎收益提高"@)
        + reason_if(c[5], "对手爆发高，生存装备价值提高"@)
}

/// The sum of the first `k` adjustments that apply, in order.
pub open spec fn partial_bonus(w: EnvironmentWeights, item: ItemValueProfile, env: ConflictEnvironment, k: int) -> int {
    let c = conditions(item, env);
    (if k >= 1 { part(c[0], w.heal_heavy_anti_heal) } else { 0 }) + (if k >= 2 {
        part(c[1], w.frontline_thick_armor_shred)
    } else {
        0
    }) + (if k >= 3 { part(c[2], w.own_ad_armor_shred) } else { 0 }) + (if k >= 4 {
        part(c[3], w.frontline_thick_mr_shred)
    } else {
        0
    }) + (if k >= 5 { part(c[4], w.own_ap_mr_shred) } else { 0 }) + (if k >= 6 {
        part(c[5], w.burst_heavy_survival)
    } else {
        0
    })
}

/// The bonuses that apply to the item add up within `i32` at every step.
pub open spec fn bonus_fits(w: EnvironmentWeights, item: ItemValueProfile, env: ConflictEnvironment) -> bool {
    forall|k: int| 1 <= k <= 6 ==> i32::MIN <= #[trigger] partial_bonus(w, item, env, k) <= i32::MAX
}

fn carries(item: &ItemValueProfile, tag: &str) -> (b: bool)
    ensures
        b == carries_tag(*item, tag@),
{
    list_has(&item.effect_tags, tag) || str_eq(item.conflict_group.as_str(), tag) || str_eq(
        item.replacement_group.as_str(),
        tag,
    )
}

/// Adds one adjustment's bonus and reason when it applies.
fn apply(score: &mut i32, reasons: &mut Vec<String>, on: bool, bonus: i32, reason: &str)
    requires
        i32::MIN <= *old(score) + part(on, bonus) <= i32::MAX,
    ensures
        *final(score) == *old(score) + part(on, bonus),
        views(final(reasons)@) == views(old(reasons)@) + reason_if(on, reason@),
{
    let ghost before = views(reasons@);
    if on {
        *score = *score + bonus;
        reasons.push(owned(reason));
        assert(views(reasons@) =~= before + seq![reason@]);
    } else {
        assert(views(reasons@) =~= before + Seq::<Seq<char>>::empty());
    }
}

impl EnvironmentModifierScorer {
    pub fn new(weights: EnvironmentWeights) -> (r: Self)
        ensures
            r.weights == weights,
    {
        EnvironmentModifierScorer { weights }
    }

    /// The extra worth of an item in the environment: the sum of the
    /// adjustments that apply, with their reasons in order.
    pub fn score_item(&self, item: &ItemValueProfile, environment: &ConflictEnvironment) -> (r: EnvironmentItemModifier)
        requires
            bonus_fits(self.weights, *item, *environment),
        ensures
            r.score == env_bonus(self.weights, *item, *environment),
            views(r.reasons@) == env_reasons(*item, *environment),
    {
        let w = self.weights;
        let e = environment;
        let anti = carries(item, "anti_heal");
        let armor = carries(item, "armor_shred");
        let mr = carries(item, "mr_shred");
        let survival = carries(item, "shield_survival") || carries(item, "sustain");
        let mut score: i32 = 0;
        let mut reasons: Vec<String> = Vec::new();
        assert(partial_bonus(w, *item, *e, 1) == part(e.opponent_heal_heavy && anti, w.heal_heavy_anti_heal));
        assert(partial_bonus(w, *item, *e, 2) == partial_bonus(w, *item, *e, 1) + part(e.opponent_frontline_thick && armor, w.frontline_thick_armor_shred));
        assert(partial_bonus(w, *item, *e, 3) == partial_bonus(w, *item, *e, 2) + part(e.own_ad_heavy && armor, w.own_ad_armor_shred));
        assert(partial_bonus(w, *item, *e, 4) == partial_bonus(w, *item, *e, 3) + part(e.opponent_frontline_thick && mr, w.frontline_thick_mr_shred));
        assert(partial_bonus(w, *item, *e, 5) == partial_bonus(w, *item, *e, 4) + part(e.own_ap_heavy && mr, w.own_ap_mr_shred));
        assert(partial_bonus(w, *item, *e, 6) == partial_bonus(w, *item, *e, 5) + part(e.opponent_burst_heavy && survival, w.burst_heavy_survival));
        assert(partial_bonus(w, *item, *e, 6) == env_bonus(w, *item, *e));
        apply(&mut score, &mut reasons, e.opponent_heal_heavy && anti, w.heal_heavy_anti_heal, "对手回复多，重伤价值提高");
        assert(views(reasons@) =~= reason_if(e.opponent_heal_heavy && anti, "对手回复多，重伤价值提高"@));
        apply(&mut score, &mut reasons, e.opponent_frontline_thick && armor, w.frontline_thick_armor_shred, "对手前排厚，破甲价值提高");
        apply(&mut score, &mut reasons, e.own_ad_heavy && armor, w.own_ad_armor_shred, "己方物理输出占比高，破甲收益提高");
        apply(&mut score, &mut reasons, e.opponent_frontline_thick && mr, w.frontline_thick_mr_shred, "对手前排厚，魔抗击碎价值提高");
        apply(&mut score, &mut reasons, e.own_ap_heavy && mr, w.own_ap_mr_shred, "己方法系输出占比高，魔抗击碎收益提高");
        apply(&mut score, &mut reasons, e.opponent_burst_heavy && survival, w.burst_heavy_survival, "对手爆发高，生存装备价值提高");
        EnvironmentItemModifier { score, reasons }
    }
}

} // verus!
