//! Offered augments ranked for the reroll decision: the interpreted effect,
//! lineup coverage and type weights, biased by the round and by the current
//! situation (effects already covered or needed, damage profile, health,
//! gold, items, core units and a locked lineup).
use vstd::prelude::*;
use crate::double_ratio::{f64_percent_round, percent_round};
use crate::augment_economy_planner::{lemma_supporters_len, support_of, supporters};
use crate::augment_effect_interpreter::{combined_text, is_interpretation, AugmentEffect, AugmentEffectInterpreter};
use crate::augment_reroll_scorer::{
    AugmentSituationContext, AugmentStage, AugmentTypeWeights, OptionView, RankedAugmentOption, default_type_weights,
    opt_text, ranked_from, sort_by_rank,
};
use crate::item_conflict_scorer::seq_views;
use crate::keyed::{find_value, keys_of, lookup};
use crate::order::is_permutation;
use crate::ranking::{stable_order, stably_sorted, Key3};
use crate::rule_types::LineupProfile;
use crate::text::{cat, clone_strings, int_text, list_has, nat_to_text, owned, push_str, str_eq, views};

verus! {

/// Ranks offered augments.
pub struct AugmentOptionRanker;

// ---------------------------------------------------------------------------
// Biases
// ---------------------------------------------------------------------------

/// Effects that bring little when the board already has them.
pub open spec fn conflict_list() -> Seq<Seq<char>> {
    seq![
        "anti_heal"@,
        "burn"@,
        "armor_shred"@,
        "mr_shred"@,
        "mana_engine"@,
        "crit_enable"@,
        "sustain"@,
        "shield_survival"@,
        "aura_team_buff"@,
        "unique_trigger"@,
    ]
}

/// The display label of an effect tag.
pub open spec fn tag_label(tag: Seq<char>) -> Seq<char> {
    if tag == "anti_heal"@ {
        "重伤/减疗"@
    } else if tag == "burn"@ {
        "灼烧"@
    } else if tag == "armor_shred"@ {
        "护甲击碎"@
    } else if tag == "mr_shred"@ {
        "魔抗击碎"@
    } else if tag == "mana_engine"@ {
        "回蓝/启动"@
    } else if tag == "crit_enable"@ {
        "暴击体系"@
    } else if tag == "sustain"@ {
        "续航"@
    } else if tag == "shield_survival"@ {
        "护盾生存"@
    } else if tag == "aura_team_buff"@ {
        "团队增益"@
    } else if tag == "unique_trigger"@ {
        "唯一触发"@
    } else if tag == "damage_ad"@ {
        "AD"@
    } else if tag == "damage_ap"@ {
        "AP"@
    } else {
        "机制"@
    }
}

/// The bias of the round: the first augment favours items and economy and
/// avoids commitments; later ones favour combat and trait commitments.
pub open spec fn stage_bias(stage: AugmentStage, tags: Seq<Seq<char>>) -> int {
    match stage {
        AugmentStage::First => if tags.contains("generic_item"@) || tags.contains("generic_econ"@) {
            8
        } else if tags.contains("hero_commit"@) || tags.contains("trait_commit"@) {
            -12
        } else {
            0
        },
        _ => if tags.contains("generic_combat"@) || tags.contains("trait_commit"@) {
            6
        } else {
            0
        },
    }
}

/// Bias and reasons of the conflicting effects among `list`: +12 where the
/// situation needs the effect, -22 where the board already has it.
pub open spec fn conflict_bias(list: Seq<Seq<char>>, tags: Seq<Seq<char>>, ctx: AugmentSituationContext) -> (int, Seq<Seq<char>>)
    decreases list.len(),
{
    if list.len() == 0 {
        (0, Seq::empty())
    } else {
        let (b, r) = conflict_bias(list.drop_last(), tags, ctx);
        let t = list.last();
        if !tags.contains(t) {
            (b, r)
        } else if views(ctx.required_effect_tags@).contains(t) {
            (b + 12, r.push("当前局势需要 "@ + tag_label(t) + " 覆盖"@))
        } else if views(ctx.existing_effect_tags@).contains(t) {
            (b - 22, r.push("已有 "@ + tag_label(t) + " 覆盖，重复效果收益下降"@))
        } else {
            (b, r)
        }
    }
}

pub open spec fn step(b: bool, bias: int, reason: Seq<char>) -> (int, Seq<Seq<char>>) {
    if b {
        (bias, seq![reason])
    } else {
        (0, Seq::empty())
    }
}

pub open spec fn plus(a: (int, Seq<Seq<char>>), b: (int, Seq<Seq<char>>)) -> (int, Seq<Seq<char>>) {
    (a.0 + b.0, a.1 + b.1)
}

/// The damage-profile part: +8 when the augment fits the preferred damage,
/// -18 when it brings the other kind.
pub open spec fn damage_bias(tags: Seq<Seq<char>>, preferred: Option<Seq<char>>) -> (int, Seq<Seq<char>>) {
    match preferred {
        Some(p) => {
            let pt = "damage_"@ + p;
            let mismatch = if p == "ad"@ {
                tags.contains("damage_ap"@)
            } else if p == "ap"@ {
                tags.contains("damage_ad"@)
            } else {
                false
            };
            if tags.contains(pt) {
                (8, seq!["贴合当前 "@ + tag_label(pt) + " 输出结构"@])
            } else if mismatch {
                (-18, seq!["当前局势不匹配，输出类型收益下降"@])
            } else {
                (0, Seq::empty())
            }
        },
        None => (0, Seq::empty()),
    }
}

/// The first lineup with a given id.
pub open spec fn first_lineup(ps: Seq<LineupProfile>, id: Seq<char>) -> Option<LineupProfile>
    decreases ps.len(),
{
    if ps.len() == 0 {
        None
    } else if ps[0].lineup_id@ == id {
        Some(ps[0])
    } else {
        first_lineup(ps.drop_first(), id)
    }
}

/// The locked-lineup part: +38 for an augment the locked lineup recommends,
/// +18 for one it keeps as a replacement.
pub open spec fn locked_bias(ps: Seq<LineupProfile>, id: Seq<char>, locked: Option<Seq<char>>) -> (int, Seq<Seq<char>>) {
    match locked {
        Some(l) => match first_lineup(ps, l) {
            Some(p) => if views(p.recommended_hex_ids@).contains(id) {
                (38, seq!["已锁阵容，推荐海克斯优先"@])
            } else if views(p.replacement_hex_ids@).contains(id) {
                (18, seq!["已锁阵容，备选海克斯可接受"@])
            } else {
                (0, Seq::empty())
            },
            None => (0, Seq::empty()),
        },
        None => (0, Seq::empty()),
    }
}

pub open spec fn clamp_to(x: int, lo: int, hi: int) -> int {
    if x < lo {
        lo
    } else if x > hi {
        hi
    } else {
        x
    }
}

/// The bias of the situation, with its reasons in order.
pub open spec fn situation_bias(
    tags: Seq<Seq<char>>,
    id: Seq<char>,
    ps: Seq<LineupProfile>,
    ctx: AugmentSituationContext,
) -> (int, Seq<Seq<char>>) {
    let low = 0 < ctx.current_hp <= 45;
    plus(
        plus(
            plus(
                plus(
                    plus(
                        plus(
                            plus(conflict_bias(conflict_list(), tags, ctx), damage_bias(tags, opt_text(ctx.preferred_damage_profile))),
                            step(low && tags.contains("generic_combat"@), 10, "血量低，优先即时战力"@),
                        ),
                        step(low && tags.contains("generic_item"@), 8, "血量低，装备补强可止血"@),
                    ),
                    step(
                        ctx.current_gold >= 60 && (tags.contains("generic_econ"@) || tags.contains("late_cap"@)),
                        28,
                        "经济很好，经济/高上限收益提高"@,
                    ),
                ),
                step(
                    ctx.item_gap_level > 0 && tags.contains("generic_item"@),
                    8 + clamp_to(ctx.item_gap_level as int, 0, 4) * 3,
                    "装备较差，优先装备补强"@,
                ),
            ),
            step(ctx.core_hero_count >= 2 && tags.contains("reroll_enable"@), 10, "核心牌较多，刷新/赌狗开关价值提高"@),
        ),
        locked_bias(ps, id, opt_text(ctx.locked_lineup_id)),
    )
}

/// The weight of a tag, 0 where it has none.
pub open spec fn weight_of(ws: Seq<(Seq<char>, i32)>, tag: Seq<char>) -> int {
    match lookup(ws, tag) {
        Some(w) => w as int,
        None => 0,
    }
}

/// The type bonus: the weights of the tags added up.
pub open spec fn type_bonus(ws: Seq<(Seq<char>, i32)>, tags: Seq<Seq<char>>) -> int
    decreases tags.len(),
{
    if tags.len() == 0 {
        0
    } else {
        type_bonus(ws, tags.drop_last()) + weight_of(ws, tags.last())
    }
}

/// The share of lineups supporting an augment, in percent, as the float
/// quotient times a hundred rounds (at least one lineup counted).
pub open spec fn rounded_percent(coverage: int, lineups: int) -> int {
    f64_percent_round(coverage, if lineups > 0 {
        lineups
    } else {
        1
    })
}

pub open spec fn weights_view(w: AugmentTypeWeights) -> Seq<(Seq<char>, i32)> {
    w.weights@.map_values(|e: (String, i32)| (e.0@, e.1))
}

/// The ranked option of an interpreted augment.
pub open spec fn option_of(
    e: AugmentEffect,
    ps: Seq<LineupProfile>,
    stage: AugmentStage,
    ws: Seq<(Seq<char>, i32)>,
    ctx: AugmentSituationContext,
) -> OptionView {
    let id = e.augment_id@;
    let sup = supporters(ps, id);
    let cov = sup.len() as int;
    let lc = rounded_percent(cov, ps.len() as int);
    let tags = views(e.tags@);
    let (sb, sr) = situation_bias(tags, id, ps, ctx);
    let cv = clamp_to(e.immediate_power + type_bonus(ws, tags) + stage_bias(stage, tags) + sb, 0, 100);
    let total = clamp_to((cv * 35 + lc * 35 + (100 - e.lock_risk) * 20 + e.reroll_value * 10) / 100, 0, 100);
    let fallback = clamp_to((lc * 45 + (100 - e.lock_risk) * 35 + cv * 20) / 100, 0, 100);
    OptionView {
        augment_id: id,
        augment_name: e.name@,
        total_score: total as i32,
        current_value: cv as i32,
        lineup_coverage: lc as i32,
        lock_risk: e.lock_risk,
        fallback_score: fallback as i32,
        tags,
        supported_lineup_ids: sup,
        reason: views(e.reason@) + (if cov > 0 {
            seq!["覆盖 "@ + int_text(cov) + " 套候选阵容"@]
        } else {
            Seq::empty()
        }) + (if e.lock_risk >= 60 {
            seq!["锁方向风险高"@]
        } else {
            Seq::empty()
        }) + sr,
    }
}

// ---------------------------------------------------------------------------
// Computing the biases
// ---------------------------------------------------------------------------

fn conflict_tags() -> (r: Vec<String>)
    ensures
        views(r@) == conflict_list(),
{
    let r = vec![
        owned("anti_heal"),
        owned("burn"),
        owned("armor_shred"),
        owned("mr_shred"),
        owned("mana_engine"),
        owned("crit_enable"),
        owned("sustain"),
        owned("shield_survival"),
        owned("aura_team_buff"),
        owned("unique_trigger"),
    ];
    assert(views(r@) =~= conflict_list());
    r
}

fn label_of(tag: &str) -> (r: String)
    ensures
        r@ == tag_label(tag@),
{
    if str_eq(tag, "anti_heal") {
        owned("重伤/减疗")
    } else if str_eq(tag, "burn") {
        owned("灼烧")
    } else if str_eq(tag, "armor_shred") {
        owned("护甲击碎")
    } else if str_eq(tag, "mr_shred") {
        owned("魔抗击碎")
    } else if str_eq(tag, "mana_engine") {
        owned("回蓝/启动")
    } else if str_eq(tag, "crit_enable") {
        owned("暴击体系")
    } else if str_eq(tag, "sustain") {
        owned("续航")
    } else if str_eq(tag, "shield_survival") {
        owned("护盾生存")
    } else if str_eq(tag, "aura_team_buff") {
        owned("团队增益")
    } else if str_eq(tag, "unique_trigger") {
        owned("唯一触发")
    } else if str_eq(tag, "damage_ad") {
        owned("AD")
    } else if str_eq(tag, "damage_ap") {
        owned("AP")
    } else {
        owned("机制")
    }
}

fn stage_bias_of(stage: AugmentStage, tags: &Vec<String>) -> (r: i32)
    ensures
        r == stage_bias(stage, views(tags@)),
{
    match stage {
        AugmentStage::First => if list_has(tags, "generic_item") || list_has(tags, "generic_econ") {
            8
        } else if list_has(tags, "hero_commit") || list_has(tags, "trait_commit") {
            -12
        } else {
            0
        },
        _ => if list_has(tags, "generic_combat") || list_has(tags, "trait_commit") {
            6
        } else {
            0
        },
    }
}

fn conflict_part(tags: &Vec<String>, ctx: &AugmentSituationContext) -> (r: (i64, Vec<String>))
    ensures
        (r.0 as int, views(r.1@)) == conflict_bias(conflict_list(), views(tags@), *ctx),
        -22 * 10 <= r.0 <= 12 * 10,
{
    let list = conflict_tags();
    let ghost lv = views(list@);
    let mut bias: i64 = 0;
    let mut reasons: Vec<String> = Vec::new();
    let mut i: usize = 0;
    while i < list.len()
        invariant
            lv == views(list@),
            lv == conflict_list(),
            i <= lv.len(),
            (bias as int, views(reasons@)) == conflict_bias(lv.subrange(0, i as int), views(tags@), *ctx),
            -22 * i <= bias <= 12 * i,
        decreases lv.len() - i,
    {
        assert(lv.subrange(0, i + 1).drop_last() =~= lv.subrange(0, i as int));
        assert(lv.subrange(0, i + 1).last() == list@[i as int]@);
        let t = list[i].as_str();
        if list_has(tags, t) {
            let ghost before = views(reasons@);
            if list_has(&ctx.required_effect_tags, t) {
                bias = bias + 12;
                let mut m = cat("当前局势需要 ", label_of(t).as_str());
                push_str(&mut m, " 覆盖");
                let ghost mv = m@;
                reasons.push(m);
                assert(views(reasons@) =~= before.push(mv));
            } else if list_has(&ctx.existing_effect_tags, t) {
                bias = bias - 22;
                let mut m = cat("已有 ", label_of(t).as_str());
                push_str(&mut m, " 覆盖，重复效果收益下降");
                let ghost mv = m@;
                reasons.push(m);
                assert(views(reasons@) =~= before.push(mv));
            }
        }
        i = i + 1;
    }
    assert(lv.subrange(0, i as int) =~= lv);
    (bias, reasons)
}

fn damage_part(tags: &Vec<String>, preferred: &Option<String>) -> (r: (i64, Vec<String>))
    ensures
        (r.0 as int, views(r.1@)) == damage_bias(views(tags@), opt_text(*preferred)),
{
    let mut reasons: Vec<String> = Vec::new();
    match preferred {
        Some(p) => {
            let pt = cat("damage_", p.as_str());
            let mismatch = if str_eq(p.as_str(), "ad") {
                list_has(tags, "damage_ap")
            } else if str_eq(p.as_str(), "ap") {
                list_has(tags, "damage_ad")
            } else {
                false
            };
            if list_has(tags, pt.as_str()) {
                let mut m = cat("贴合当前 ", label_of(pt.as_str()).as_str());
                push_str(&mut m, " 输出结构");
                let ghost mv = m@;
                reasons.push(m);
                assert(views(reasons@) =~= seq![mv]);
                (8, reasons)
            } else if mismatch {
                reasons.push(owned("当前局势不匹配，输出类型收益下降"));
                assert(views(reasons@) =~= seq!["当前局势不匹配，输出类型收益下降"@]);
                (-18, reasons)
            } else {
                assert(views(reasons@) =~= Seq::<Seq<char>>::empty());
                (0, reasons)
            }
        },
        None => {
            assert(views(reasons@) =~= Seq::<Seq<char>>::empty());
            (0, reasons)
        },
    }
}

fn find_lineup<'a>(ps: &'a [LineupProfile], id: &str) -> (r: Option<&'a LineupProfile>)
    ensures
        match r {
            Some(p) => first_lineup(ps@, id@) == Some(*p),
            None => first_lineup(ps@, id@) is None,
        },
{
    let mut i: usize = 0;
    assert(ps@.subrange(0, ps@.len() as int) =~= ps@);
    while i < ps.len()
        invariant
            i <= ps@.len(),
            first_lineup(ps@, id@) == first_lineup(ps@.subrange(i as int, ps@.len() as int), id@),
        decreases ps@.len() - i,
    {
        let ghost rest = ps@.subrange(i as int, ps@.len() as int);
        assert(rest.drop_first() =~= ps@.subrange(i + 1, ps@.len() as int));
        assert(rest[0] == ps@[i as int]);
        if str_eq(ps[i].lineup_id.as_str(), id) {
            return Some(&ps[i]);
        }
        i = i + 1;
    }
    None
}

fn locked_part(ps: &[LineupProfile], id: &str, locked: &Option<String>) -> (r: (i64, Vec<String>))
    ensures
        (r.0 as int, views(r.1@)) == locked_bias(ps@, id@, opt_text(*locked)),
{
    let mut reasons: Vec<String> = Vec::new();
    let found = match locked {
        Some(l) => find_lineup(ps, l.as_str()),
        None => None,
    };
    match found {
        Some(p) => {
            if list_has(&p.recommended_hex_ids, id) {
                reasons.push(owned("已锁阵容，推荐海克斯优先"));
                assert(views(reasons@) =~= seq!["已锁阵容，推荐海克斯优先"@]);
                (38, reasons)
            } else if list_has(&p.replacement_hex_ids, id) {
                reasons.push(owned("已锁阵容，备选海克斯可接受"));
                assert(views(reasons@) =~= seq!["已锁阵容，备选海克斯可接受"@]);
                (18, reasons)
            } else {
                assert(views(reasons@) =~= Seq::<Seq<char>>::empty());
                (0, reasons)
            }
        },
        None => {
            assert(views(reasons@) =~= Seq::<Seq<char>>::empty());
            (0, reasons)
        },
    }
}

fn add_step(acc: &mut (i64, Vec<String>), b: bool, bias: i64, reason: &str)
    requires
        -1000 <= old(acc).0 <= 1000,
        0 <= bias <= 100,
    ensures
        (final(acc).0 as int, views(final(acc).1@)) == plus((old(acc).0 as int, views(old(acc).1@)), step(b, bias as int, reason@)),
        -1000 <= final(acc).0 <= 1100,
{
    if b {
        acc.0 = acc.0 + bias;
        let ghost before = views(acc.1@);
        acc.1.push(owned(reason));
        assert(views(acc.1@) =~= before + seq![reason@]);
    } else {
        assert(views(acc.1@) =~= views(acc.1@) + Seq::<Seq<char>>::empty());
    }
}

fn situation_bias_of(tags: &Vec<String>, id: &str, ps: &[LineupProfile], ctx: &AugmentSituationContext) -> (r: (i64, Vec<String>))
    ensures
        (r.0 as int, views(r.1@)) == situation_bias(views(tags@), id@, ps@, *ctx),
        -1000 <= r.0 <= 1000,
{
    let (cb, mut cr) = conflict_part(tags, ctx);
    let (db, mut dr) = damage_part(tags, &ctx.preferred_damage_profile);
    let ghost c0 = views(cr@);
    let ghost d0 = views(dr@);
    cr.append(&mut dr);
    let mut acc: (i64, Vec<String>) = (cb + db, cr);
    assert(views(acc.1@) =~= c0 + d0);
    let low = ctx.current_hp > 0 && ctx.current_hp <= 45;
    add_step(&mut acc, low && list_has(tags, "generic_combat"), 10, "血量低，优先即时战力");
    add_step(&mut acc, low && list_has(tags, "generic_item"), 8, "血量低，装备补强可止血");
    add_step(
        &mut acc,
        ctx.current_gold >= 60 && (list_has(tags, "generic_econ") || list_has(tags, "late_cap")),
        28,
        "经济很好，经济/高上限收益提高",
    );
    let gap: i64 = if ctx.item_gap_level < 0 {
        0
    } else if ctx.item_gap_level > 4 {
        4
    } else {
        ctx.item_gap_level as i64
    };
    add_step(&mut acc, ctx.item_gap_level > 0 && list_has(tags, "generic_item"), 8 + gap * 3, "装备较差，优先装备补强");
    add_step(&mut acc, ctx.core_hero_count >= 2 && list_has(tags, "reroll_enable"), 10, "核心牌较多，刷新/赌狗开关价值提高");
    let (lb, mut lr) = locked_part(ps, id, &ctx.locked_lineup_id);
    let ghost a0 = views(acc.1@);
    let ghost l0 = views(lr@);
    let (ab, mut ar) = acc;
    ar.append(&mut lr);
    assert(views(ar@) =~= a0 + l0);
    (ab + lb, ar)
}

fn type_bonus_of(weights: &AugmentTypeWeights, tags: &Vec<String>) -> (r: i128)
    ensures
        r == type_bonus(weights_view(*weights), views(tags@)),
        -0x8000_0000 * tags@.len() <= r <= 0x7fff_ffff * tags@.len(),
{
    let ghost ws = weights_view(*weights);
    let ghost tv = views(tags@);
    let mut sum: i128 = 0;
    let mut i: usize = 0;
    while i < tags.len()
        invariant
            ws == weights_view(*weights),
            tv == views(tags@),
            i <= tv.len(),
            sum == type_bonus(ws, tv.subrange(0, i as int)),
            -0x8000_0000 * i <= sum <= 0x7fff_ffff * i,
        decreases tv.len() - i,
    {
        assert(tv.subrange(0, i + 1).drop_last() =~= tv.subrange(0, i as int));
        assert(tv.subrange(0, i + 1).last() == tags@[i as int]@);
        let w: i32 = match crate::keyed::find_value(&weights.weights, tags[i].as_str()) {
            Some(w) => *w,
            None => 0,
        };
        assert(keys_of(weights.weights@) =~= ws);
        sum = sum + w as i128;
        i = i + 1;
    }
    assert(tv.subrange(0, i as int) =~= tv);
    sum
}


/// A score clamped to 0..=100.
fn clamped(x: i128) -> (r: i32)
    ensures
        r == clamp_to(x as int, 0, 100),
{
    if x < 0 {
        0
    } else if x > 100 {
        100
    } else {
        x as i32
    }
}

/// A weighted sum of percentages brought back to 0..=100.
fn scaled(num: i128) -> (r: i32)
    ensures
        r == clamp_to(num as int / 100, 0, 100),
{
    if num < 0 {
        0
    } else {
        let q: i128 = num / 100;
        if q > 100 {
            100
        } else {
            q as i32
        }
    }
}

fn coverage_percent(cov: usize, n: usize) -> (r: i32)
    requires
        cov <= n,
    ensures
        r == rounded_percent(cov as int, n as int),
        0 <= r <= 4097,
{
    let most: u64 = if n > 0 {
        n as u64
    } else {
        1
    };
    percent_round(cov as u64, most)
}

/// The ranked option of one interpreted augment.
fn option_for(
    effect: AugmentEffect,
    profiles: &[LineupProfile],
    stage: AugmentStage,
    weights: &AugmentTypeWeights,
    ctx: &AugmentSituationContext,
) -> (r: RankedAugmentOption)
    ensures
        r@ == option_of(effect, profiles@, stage, weights_view(*weights), *ctx),
{
    let ghost e = effect;
    let (sup, _, _) = support_of(effect.augment_id.as_str(), profiles);
    proof {
        lemma_supporters_len(profiles@, effect.augment_id@);
    }
    let cov = sup.len();
    let lc = coverage_percent(cov, profiles.len());
    let tb = type_bonus_of(weights, &effect.tags);
    let tag_count = effect.tags.len();
    assert(tag_count <= 0x1_0000_0000_0000_0000);
    assert(-0x1_0000_0000_0000_0000_0000_0000 <= tb <= 0x1_0000_0000_0000_0000_0000_0000);
    let stb = stage_bias_of(stage, &effect.tags);
    let (sb, mut sr) = situation_bias_of(&effect.tags, effect.augment_id.as_str(), profiles, ctx);
    let cv = clamped(effect.immediate_power as i128 + tb + stb as i128 + sb as i128);
    let total = scaled(
        cv as i128 * 35 + lc as i128 * 35 + (100 - effect.lock_risk as i128) * 20 + effect.reroll_value as i128 * 10,
    );
    let fallback = scaled(lc as i128 * 45 + (100 - effect.lock_risk as i128) * 35 + cv as i128 * 20);
    let mut reason = effect.reason;
    let ghost r0 = views(reason@);
    if cov > 0 {
        let mut m = cat("覆盖 ", nat_to_text(cov as u64).as_str());
        push_str(&mut m, " 套候选阵容");
        reason.push(m);
    }
    let ghost r1 = views(reason@);
    assert(r1 =~= r0 + (if cov > 0 {
        seq!["覆盖 "@ + int_text(cov as int) + " 套候选阵容"@]
    } else {
        Seq::<Seq<char>>::empty()
    }));
    if effect.lock_risk >= 60 {
        reason.push(owned("锁方向风险高"));
    }
    let ghost r2 = views(reason@);
    assert(r2 =~= r1 + (if e.lock_risk >= 60 {
        seq!["锁方向风险高"@]
    } else {
        Seq::<Seq<char>>::empty()
    }));
    let ghost srv = views(sr@);
    reason.append(&mut sr);
    assert(views(reason@) =~= r2 + srv);
    RankedAugmentOption {
        augment_id: effect.augment_id,
        augment_name: effect.name,
        total_score: total,
        current_value: cv,
        lineup_coverage: lc,
        lock_risk: effect.lock_risk,
        fallback_score: fallback,
        tags: effect.tags,
        supported_lineup_ids: sup,
        reason,
    }
}


// ---------------------------------------------------------------------------
// Ranking
// ---------------------------------------------------------------------------

/// `ranked` is what the ranking makes of the offered augments: each candidate
/// (id, name, description, level) interpreted with the number of lineups that
/// support it, scored by `option_of`, and sorted by rank key, ties in offer
/// order.
pub open spec fn ranked_candidates(
    cands: Seq<(String, String, String, i32)>,
    ps: Seq<LineupProfile>,
    stage: AugmentStage,
    ws: Seq<(Seq<char>, i32)>,
    ctx: AugmentSituationContext,
    ranked: Seq<OptionView>,
) -> bool {
    exists|effects: Seq<AugmentEffect>|
        {
            &&& effects.len() == cands.len()
            &&& forall|i: int|
                0 <= i < cands.len() ==> is_interpretation(
                    #[trigger] effects[i],
                    cands[i].0@,
                    cands[i].1@,
                    combined_text(cands[i].1@, cands[i].2@),
                    cands[i].3 as int,
                    supporters(ps, cands[i].0@).len() as int,
                )
            &&& ranked_from(effects.map_values(|e: AugmentEffect| option_of(e, ps, stage, ws, ctx)), ranked)
        }
}

/// The situation assumed from the opening alone: 40 health when it is weak
/// (80 otherwise), 60 gold when it is strong (20 otherwise), nothing else
/// known.
pub open spec fn opening_context(ctx: AugmentSituationContext, opening_is_strong: bool, opening_is_weak: bool) -> bool {
    &&& ctx.current_hp == (if opening_is_weak { 40i32 } else { 80i32 })
    &&& ctx.current_gold == (if opening_is_strong { 60i32 } else { 20i32 })
    &&& ctx.item_gap_level == 0
    &&& ctx.core_hero_count == 0
    &&& ctx.locked_lineup_id is None
    &&& ctx.existing_effect_tags@.len() == 0
    &&& ctx.required_effect_tags@.len() == 0
    &&& ctx.preferred_damage_profile is None
}

impl AugmentOptionRanker {
    /// Ranks the offered augments with the default type weights, in the
    /// situation assumed from the opening.
    pub fn rank_options(
        candidates: &[(String, String, String, i32)],
        profiles: &[LineupProfile],
        stage: AugmentStage,
        opening_is_strong: bool,
        opening_is_weak: bool,
    ) -> (r: Vec<RankedAugmentOption>)
        requires
            profiles@.len() <= i32::MAX,
        ensures
            exists|ctx: AugmentSituationContext|
                opening_context(ctx, opening_is_strong, opening_is_weak) && ranked_candidates(
                    candidates@,
                    profiles@,
                    stage,
                    default_type_weights(),
                    ctx,
                    seq_views(r@),
                ),
    {
        let weights = AugmentTypeWeights::default();
        Self::rank_options_with_weights(candidates, profiles, stage, opening_is_strong, opening_is_weak, &weights)
    }

    /// Ranks the offered augments with the given weights, in the situation
    /// assumed from the opening.
    pub fn rank_options_with_weights(
        candidates: &[(String, String, String, i32)],
        profiles: &[LineupProfile],
        stage: AugmentStage,
        opening_is_strong: bool,
        opening_is_weak: bool,
        weights: &AugmentTypeWeights,
    ) -> (r: Vec<RankedAugmentOption>)
        requires
            profiles@.len() <= i32::MAX,
        ensures
            exists|ctx: AugmentSituationContext|
                opening_context(ctx, opening_is_strong, opening_is_weak) && ranked_candidates(
                    candidates@,
                    profiles@,
                    stage,
                    weights_view(*weights),
                    ctx,
                    seq_views(r@),
                ),
    {
        let context = AugmentSituationContext {
            current_hp: if opening_is_weak { 40 } else { 80 },
            current_gold: if opening_is_strong { 60 } else { 20 },
            item_gap_level: 0,
            core_hero_count: 0,
            locked_lineup_id: None,
            existing_effect_tags: Vec::new(),
            required_effect_tags: Vec::new(),
            preferred_damage_profile: None,
        };
        let r = Self::rank_options_with_weights_and_context(candidates, profiles, stage, weights, &context);
        assert(opening_context(context, opening_is_strong, opening_is_weak));
        r
    }

    /// Ranks the offered augments with the default type weights in the given
    /// situation.
    pub fn rank_options_with_context(
        candidates: &[(String, String, String, i32)],
        profiles: &[LineupProfile],
        stage: AugmentStage,
        context: &AugmentSituationContext,
    ) -> (r: Vec<RankedAugmentOption>)
        requires
            profiles@.len() <= i32::MAX,
        ensures
            ranked_candidates(candidates@, profiles@, stage, default_type_weights(), *context, seq_views(r@)),
    {
        let weights = AugmentTypeWeights::default();
        Self::rank_options_with_weights_and_context(candidates, profiles, stage, &weights, context)
    }

    /// Ranks the offered augments: each is interpreted, scored against the
    /// lineups, the weights and the situation, and the options are sorted by
    /// total score, then fallback score (both descending), then lock risk.
    pub fn rank_options_with_weights_and_context(
        candidates: &[(String, String, String, i32)],
        profiles: &[LineupProfile],
        stage: AugmentStage,
        weights: &AugmentTypeWeights,
        context: &AugmentSituationContext,
    ) -> (r: Vec<RankedAugmentOption>)
        requires
            profiles@.len() <= i32::MAX,
        ensures
            ranked_candidates(candidates@, profiles@, stage, weights_view(*weights), *context, seq_views(r@)),
    {
        let ghost ws = weights_view(*weights);
        let ghost cs = candidates@;
        let ghost ps = profiles@;
        let ghost mut effects: Seq<AugmentEffect> = Seq::empty();
        let mut opts: Vec<RankedAugmentOption> = Vec::new();
        let mut i: usize = 0;
        while i < candidates.len()
            invariant
                ws == weights_view(*weights),
                cs == candidates@,
                ps == profiles@,
                ps.len() <= i32::MAX,
                i <= cs.len(),
                effects.len() == i,
                opts@.len() == i,
                forall|k: int|
                    0 <= k < i ==> is_interpretation(
                        #[trigger] effects[k],
                        cs[k].0@,
                        cs[k].1@,
                        combined_text(cs[k].1@, cs[k].2@),
                        cs[k].3 as int,
                        supporters(ps, cs[k].0@).len() as int,
                    ),
                forall|k: int| 0 <= k < i ==> (#[trigger] opts@[k])@ == option_of(effects[k], ps, stage, ws, *context),
            decreases cs.len() - i,
        {
            let c = &candidates[i];
            let (sup, _, _) = support_of(c.0.as_str(), profiles);
            proof {
                lemma_supporters_len(ps, c.0@);
            }
            let count = sup.len() as i32;
            let effect = AugmentEffectInterpreter::interpret(c.0.as_str(), c.1.as_str(), c.2.as_str(), c.3, count);
            proof {
                effects = effects.push(effect);
            }
            let o = option_for(effect, profiles, stage, weights, context);
            opts.push(o);
            i = i + 1;
        }
        let ghost ov = effects.map_values(|e: AugmentEffect| option_of(e, ps, stage, ws, *context));
        assert(seq_views(opts@) =~= ov) by {
            assert forall|k: int| 0 <= k < ov.len() implies seq_views(opts@)[k] == ov[k] by {
                assert(opts@[k]@ == option_of(effects[k], ps, stage, ws, *context));
            }
        }
        let r = sort_by_rank(&opts);
        assert(ranked_candidates(cs, ps, stage, ws, *context, seq_views(r@)));
        r
    }
}

} // verus!
