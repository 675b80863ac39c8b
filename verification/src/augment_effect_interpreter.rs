//! Reads an augment's name and description and derives its effect tags,
//! immediate power, direction-lock risk and reroll value from a keyword table.
use vstd::prelude::*;
use crate::num::{clamp, clamp_i32, min_int};
use crate::text::{
    cat, chars_of, clone_strings, contains_str, has_sub, list_has, owned, str_eq, to_lowercase,
    lowercase_of, views,
};

verus! {

/// Effect read from one augment.
#[derive(Debug, Clone)]
pub struct AugmentEffect {
    pub augment_id: String,
    pub name: String,
    /// Effect tags, each once, in the order of the keyword table.
    pub tags: Vec<String>,
    /// 0-100.
    pub immediate_power: i32,
    /// Number of candidate lineups supported, at most 5.
    pub lineup_coverage: i32,
    /// 0-100.
    pub lock_risk: i32,
    /// 0-100.
    pub reroll_value: i32,
    pub reason: Vec<String>,
}

/// Interpreter of augment texts.
pub struct AugmentEffectInterpreter;

/// One row of the keyword table: when any keyword occurs, the tag is earned
/// and the power and lock contributions are added.
pub struct TagRule {
    pub keywords: Seq<Seq<char>>,
    pub tag: Seq<char>,
    pub power: int,
    pub lock: int,
}

/// Number of rows of the keyword table.
pub open spec fn tag_rule_count() -> nat {
    28
}

/// Row `i` of the keyword table.
pub open spec fn tag_rule(i: int) -> TagRule {
    if i == 0 {
        TagRule { keywords: seq!["攻击力"@, "法术强度"@, "法强"@, "ad"@, "ap"@, "伤害"@], tag: "generic_combat"@, power: 25, lock: 0 }
    } else if i == 1 {
        TagRule { keywords: seq!["攻速"@, "攻击速度"@, "暴击"@], tag: "generic_combat"@, power: 20, lock: 0 }
    } else if i == 2 {
        TagRule { keywords: seq!["生命值"@, "护甲"@, "魔抗"@, "双抗"@, "护盾"@, "治疗"@], tag: "generic_combat"@, power: 15, lock: 0 }
    } else if i == 3 {
        TagRule { keywords: seq!["攻击力"@, "攻速"@, "攻击速度"@, "物理伤害"@, "ad"@], tag: "damage_ad"@, power: 0, lock: 0 }
    } else if i == 4 {
        TagRule { keywords: seq!["法术强度"@, "法强"@, "魔法伤害"@, "ap"@], tag: "damage_ap"@, power: 0, lock: 0 }
    } else if i == 5 {
        TagRule { keywords: seq!["重伤"@, "减疗"@, "治疗降低"@], tag: "anti_heal"@, power: 5, lock: 0 }
    } else if i == 6 {
        TagRule { keywords: seq!["灼烧"@, "燃烧"@], tag: "burn"@, power: 5, lock: 0 }
    } else if i == 7 {
        TagRule { keywords: seq!["护甲击碎"@, "破甲"@, "穿甲"@], tag: "armor_shred"@, power: 5, lock: 0 }
    } else if i == 8 {
        TagRule { keywords: seq!["魔抗击碎"@, "破防"@, "减魔抗"@], tag: "mr_shred"@, power: 5, lock: 0 }
    } else if i == 9 {
        TagRule { keywords: seq!["回蓝"@, "启动"@, "法力值"@], tag: "mana_engine"@, power: 5, lock: 0 }
    } else if i == 10 {
        TagRule { keywords: seq!["技能暴击"@, "暴击体系"@], tag: "crit_enable"@, power: 5, lock: 0 }
    } else if i == 11 {
        TagRule { keywords: seq!["吸血"@, "续航"@, "全能吸血"@], tag: "sustain"@, power: 5, lock: 0 }
    } else if i == 12 {
        TagRule { keywords: seq!["护盾"@], tag: "shield_survival"@, power: 5, lock: 0 }
    } else if i == 13 {
        TagRule { keywords: seq!["光环"@, "团队增益"@, "全队"@], tag: "aura_team_buff"@, power: 5, lock: 0 }
    } else if i == 14 {
        TagRule { keywords: seq!["唯一"@, "不可叠加"@], tag: "unique_trigger"@, power: 0, lock: 0 }
    } else if i == 15 {
        TagRule { keywords: seq!["金币"@, "经济"@, "利息"@, "免费"@], tag: "generic_econ"@, power: 5, lock: 0 }
    } else if i == 16 {
        TagRule { keywords: seq!["刷新"@, "商店"@, "d牌"@, "免费刷新"@], tag: "generic_econ"@, power: 10, lock: 0 }
    } else if i == 17 {
        TagRule { keywords: seq!["经验"@, "等级"@, "人口"@, "升星"@], tag: "generic_econ"@, power: 10, lock: 0 }
    } else if i == 18 {
        TagRule { keywords: seq!["装备"@, "散件"@, "锻造"@, "重铸"@, "拆卸"@, "组件"@], tag: "generic_item"@, power: 15, lock: 0 }
    } else if i == 19 {
        TagRule { keywords: seq!["成装"@, "神器"@, "奥恩"@, "光明"@], tag: "generic_item"@, power: 25, lock: 10 }
    } else if i == 20 {
        TagRule { keywords: seq!["羁绊"@, "纹章"@, "转职"@, "之心"@, "之魂"@, "之冕"@], tag: "trait_commit"@, power: 20, lock: 30 }
    } else if i == 21 {
        TagRule { keywords: seq!["专属"@, "英雄强化"@], tag: "hero_commit"@, power: 30, lock: 60 }
    } else if i == 22 {
        TagRule { keywords: seq!["刷新"@, "复制"@, "免费"@], tag: "reroll_enable"@, power: 5, lock: 20 }
    } else if i == 23 {
        TagRule { keywords: seq!["低费"@, "1费"@, "2费"@, "三星"@], tag: "reroll_enable"@, power: 0, lock: 30 }
    } else if i == 24 {
        TagRule { keywords: seq!["连胜"@, "节奏"@, "前期"@, "开局"@], tag: "tempo"@, power: 20, lock: 10 }
    } else if i == 25 {
        TagRule { keywords: seq!["后期"@, "上限"@, "高费"@, "彩色"@], tag: "late_cap"@, power: 5, lock: 10 }
    } else if i == 26 {
        TagRule { keywords: seq!["星神"@, "神明"@, "天选"@, "任务"@, "传奇"@], tag: "mode_special"@, power: 10, lock: 40 }
    } else if i == 27 {
        TagRule { keywords: seq!["高风险"@, "赌"@, "概率"@, "随机"@], tag: "high_risk"@, power: 10, lock: 30 }
    } else {
        TagRule { keywords: seq![], tag: seq![], power: 0, lock: 0 }
    }
}

/// Row `r` applies to `text`: one of its keywords occurs in it.
pub open spec fn rule_fires(text: Seq<char>, r: TagRule) -> bool {
    exists|k: int| 0 <= k < r.keywords.len() && has_sub(text, #[trigger] r.keywords[k])
}

/// Tags, power, lock risk and reroll value accumulated over a prefix of the table.
pub struct EffectTally {
    pub tags: Seq<Seq<char>>,
    pub power: int,
    pub lock: int,
    pub reroll: int,
}

/// The tally after the first `n` rows: power starts at 30 and lock risk at 20;
/// each applying row adds its contributions, its tag once, and 15 reroll value
/// when the tag is `reroll_enable`.
pub open spec fn tally(text: Seq<char>, n: nat) -> EffectTally
    decreases n,
{
    if n == 0 {
        EffectTally { tags: seq![], power: 30, lock: 20, reroll: 0 }
    } else {
        let prev = tally(text, (n - 1) as nat);
        let r = tag_rule(n - 1);
        if rule_fires(text, r) {
            EffectTally {
                tags: if prev.tags.contains(r.tag) {
                    prev.tags
                } else {
                    prev.tags.push(r.tag)
                },
                power: prev.power + r.power,
                lock: prev.lock + r.lock,
                reroll: prev.reroll + if r.tag == "reroll_enable"@ {
                    15int
                } else {
                    0int
                },
            }
        } else {
            prev
        }
    }
}

/// Power adjustment by augment level.
pub open spec fn level_power_bonus(level: int) -> int {
    if level == 1 {
        -5
    } else if level == 3 {
        10
    } else {
        0
    }
}

/// Lock-risk adjustment by augment level.
pub open spec fn level_lock_bonus(level: int) -> int {
    if level == 1 {
        -10
    } else if level == 3 {
        10
    } else {
        0
    }
}

/// Coverage: the number of recommending lineups, at most 5.
pub open spec fn effect_coverage(count: int) -> int {
    min_int(count, 5)
}

/// Immediate power of an augment whose lower-cased text is `text`.
pub open spec fn effect_power(text: Seq<char>, level: int) -> int {
    clamp(tally(text, tag_rule_count()).power + level_power_bonus(level), 0, 100)
}

/// Lock risk: the tallied risk, adjusted for level, cut to three fifths
/// (toward zero) when three or more lineups recommend the augment, raised by 15
/// when none does, then kept in 0-100.
pub open spec fn effect_lock(text: Seq<char>, level: int, count: int) -> int {
    let l0 = tally(text, tag_rule_count()).lock + level_lock_bonus(level);
    let cov = effect_coverage(count);
    let l1 = if cov >= 3 {
        l0 * 6 / 10
    } else {
        l0
    };
    let l2 = if cov == 0 {
        l1 + 15
    } else {
        l1
    };
    clamp(l2, 0, 100)
}

/// Reroll value, kept in 0-100.
pub open spec fn effect_reroll(text: Seq<char>) -> int {
    clamp(tally(text, tag_rule_count()).reroll, 0, 100)
}

/// The explanation given for a tag.
pub open spec fn tag_reason(tag: Seq<char>) -> Seq<char> {
    if tag == "generic_combat"@ {
        "提供通用即时战力"@
    } else if tag == "generic_econ"@ {
        "提供经济/运营收益"@
    } else if tag == "generic_item"@ {
        "提供装备/散件弹性"@
    } else if tag == "trait_commit"@ {
        "绑定羁绊方向"@
    } else if tag == "hero_commit"@ {
        "绑定特定英雄"@
    } else if tag == "reroll_enable"@ {
        "低费/赌狗路线加成"@
    } else if tag == "tempo"@ {
        "前中期节奏优势"@
    } else if tag == "late_cap"@ {
        "后期上限提升"@
    } else if tag == "high_risk"@ {
        "高风险高收益"@
    } else if tag == "anti_heal"@ {
        "提供重伤/减疗覆盖"@
    } else if tag == "burn"@ {
        "提供灼烧覆盖"@
    } else if tag == "armor_shred"@ {
        "提供护甲击碎"@
    } else if tag == "mr_shred"@ {
        "提供魔抗击碎"@
    } else if tag == "mana_engine"@ {
        "提供回蓝/启动收益"@
    } else if tag == "crit_enable"@ {
        "提供暴击体系收益"@
    } else if tag == "sustain"@ {
        "提供续航收益"@
    } else if tag == "shield_survival"@ {
        "提供护盾生存收益"@
    } else if tag == "aura_team_buff"@ {
        "提供团队增益覆盖"@
    } else if tag == "unique_trigger"@ {
        "包含唯一触发效果"@
    } else if tag == "damage_ad"@ {
        "偏 AD 输出收益"@
    } else if tag == "damage_ap"@ {
        "偏 AP 输出收益"@
    } else {
        "标签: "@ + tag
    }
}

/// `effect` is what the keyword table makes of `text` (the lower-cased name, a
/// space, and the lower-cased description) for an augment of `level`
/// recommended by `count` lineups.
pub open spec fn is_interpretation(
    effect: AugmentEffect,
    id: Seq<char>,
    name: Seq<char>,
    text: Seq<char>,
    level: int,
    count: int,
) -> bool {
    let t = tally(text, tag_rule_count());
    &&& effect.augment_id@ == id
    &&& effect.name@ == name
    &&& views(effect.tags@) == t.tags
    &&& effect.immediate_power == effect_power(text, level)
    &&& effect.lineup_coverage == effect_coverage(count)
    &&& effect.lock_risk == effect_lock(text, level, count)
    &&& effect.reroll_value == effect_reroll(text)
    &&& views(effect.reason@) == t.tags.map_values(|g: Seq<char>| tag_reason(g))
}

/// The text the keyword table is matched against: lower-cased name, a space,
/// lower-cased description.
pub open spec fn combined_text(name: Seq<char>, desc: Seq<char>) -> Seq<char> {
    lowercase_of(name) + " "@ + lowercase_of(desc)
}

/// Exec form of a keyword row.
pub struct KeywordRule {
    pub keywords: Vec<&'static str>,
    pub tag: &'static str,
    pub power: i32,
    pub lock: i32,
}

/// The spec row an exec row stands for.
pub open spec fn keyword_rule_view(r: KeywordRule) -> TagRule {
    TagRule {
        keywords: r.keywords@.map_values(|k: &str| k@),
        tag: r.tag@,
        power: r.power as int,
        lock: r.lock as int,
    }
}

proof fn lemma_rule_bounds(i: int)
    requires
        0 <= i < tag_rule_count(),
    ensures
        0 <= tag_rule(i).power <= 30,
        0 <= tag_rule(i).lock <= 60,
{
}

proof fn lemma_tally_bounds(text: Seq<char>, n: nat)
    requires
        n <= tag_rule_count(),
    ensures
        30 <= tally(text, n).power <= 30 + 30 * n,
        20 <= tally(text, n).lock <= 20 + 60 * n,
        0 <= tally(text, n).reroll <= 15 * n,
    decreases n,
{
    if n > 0 {
        lemma_tally_bounds(text, (n - 1) as nat);
        lemma_rule_bounds(n - 1);
    }
}

/// Rows 22 and 23 are the only rows of the table tagged `reroll_enable`.
proof fn lemma_reroll_rows(i: int)
    requires
        0 <= i < tag_rule_count(),
    ensures
        (tag_rule(i).tag == "reroll_enable"@) <==> (i == 22 || i == 23),
{
    reveal_strlit("reroll_enable");
    reveal_strlit("generic_combat");
    reveal_strlit("damage_ad");
    reveal_strlit("damage_ap");
    reveal_strlit("anti_heal");
    reveal_strlit("burn");
    reveal_strlit("armor_shred");
    reveal_strlit("mr_shred");
    reveal_strlit("mana_engine");
    reveal_strlit("crit_enable");
    reveal_strlit("sustain");
    reveal_strlit("shield_survival");
    reveal_strlit("aura_team_buff");
    reveal_strlit("unique_trigger");
    reveal_strlit("generic_econ");
    reveal_strlit("generic_item");
    reveal_strlit("trait_commit");
    reveal_strlit("hero_commit");
    reveal_strlit("tempo");
    reveal_strlit("late_cap");
    reveal_strlit("mode_special");
    reveal_strlit("high_risk");
    let t = tag_rule(i).tag;
    let r = "reroll_enable"@;
    if !(i == 22 || i == 23) && t == r {
        assert(t.len() == r.len());
        assert(t[0] == r[0]);
        assert(t[1] == r[1]);
        assert(t[2] == r[2]);
    }
}

/// The number of `reroll_enable` rows among the first `n`.
pub open spec fn reroll_rows_before(n: int) -> int {
    if n <= 22 {
        0
    } else if n == 23 {
        1
    } else {
        2
    }
}

proof fn lemma_tally_tags(text: Seq<char>, n: nat)
    requires
        n <= tag_rule_count(),
    ensures
        forall|i: int, j: int|
            0 <= i < j < tally(text, n).tags.len() ==> tally(text, n).tags[i] != tally(text, n).tags[j],
        tally(text, n).reroll % 15 == 0,
        0 <= tally(text, n).reroll <= 15 * reroll_rows_before(n as int),
        tally(text, n).reroll > 0 <==> tally(text, n).tags.contains("reroll_enable"@),
    decreases n,
{
    if n > 0 {
        lemma_tally_tags(text, (n - 1) as nat);
        lemma_reroll_rows(n - 1);
        let prev = tally(text, (n - 1) as nat);
        let r = tag_rule(n - 1);
        if rule_fires(text, r) && !prev.tags.contains(r.tag) {
            let t = prev.tags.push(r.tag);
            assert forall|i: int, j: int| 0 <= i < j < t.len() implies t[i] != t[j] by {
                if j == t.len() - 1 {
                    assert(t[i] == prev.tags[i]);
                }
            }
            assert(t.contains("reroll_enable"@) <==> (prev.tags.contains("reroll_enable"@) || r.tag
                == "reroll_enable"@)) by {
                if t.contains("reroll_enable"@) && !prev.tags.contains("reroll_enable"@) {
                    let k = choose|k: int| 0 <= k < t.len() && t[k] == "reroll_enable"@;
                    if k < prev.tags.len() {
                        assert(prev.tags[k] == t[k]);
                    }
                }
                if r.tag == "reroll_enable"@ {
                    assert(t[t.len() - 1] == r.tag);
                }
                if prev.tags.contains("reroll_enable"@) {
                    let k = choose|k: int| 0 <= k < prev.tags.len() && prev.tags[k] == "reroll_enable"@;
                    assert(t[k] == prev.tags[k]);
                }
            }
        }
    }
}

/// What an interpretation always gives: power and lock risk within 0-100,
/// a reroll value of 0, 15 or 30 that is positive exactly when the augment is
/// tagged `reroll_enable`, coverage of the recommending lineups up to five,
/// no tag twice, and one reason per tag.
pub proof fn lemma_interpretation_ranges(
    e: AugmentEffect,
    id: Seq<char>,
    name: Seq<char>,
    text: Seq<char>,
    level: int,
    count: int,
)
    requires
        is_interpretation(e, id, name, text, level, count),
    ensures
        0 <= e.immediate_power <= 100,
        0 <= e.lock_risk <= 100,
        e.reroll_value == 0 || e.reroll_value == 15 || e.reroll_value == 30,
        e.reroll_value > 0 <==> views(e.tags@).contains("reroll_enable"@),
        e.lineup_coverage == min_int(count, 5),
        forall|i: int, j: int| 0 <= i < j < e.tags@.len() ==> e.tags@[i]@ != e.tags@[j]@,
        e.reason@.len() == e.tags@.len(),
        e.augment_id@ == id,
        e.name@ == name,
{
    lemma_tally_tags(text, tag_rule_count());
    let t = tally(text, tag_rule_count());
    assert(views(e.tags@) == t.tags);
    assert forall|i: int, j: int| 0 <= i < j < e.tags@.len() implies e.tags@[i]@ != e.tags@[j]@ by {
        assert(views(e.tags@)[i] == e.tags@[i]@);
        assert(views(e.tags@)[j] == e.tags@[j]@);
    }
    assert(views(e.reason@).len() == e.reason@.len());
}

fn keyword_rule(i: usize) -> (r: KeywordRule)
    requires
        i < tag_rule_count(),
    ensures
        keyword_rule_view(r) == tag_rule(i as int),
{
    let r = match i {
        0 => KeywordRule { keywords: vec!["攻击力", "法术强度", "法强", "ad", "ap", "伤害"], tag: "generic_combat", power: 25, lock: 0 },
        1 => KeywordRule { keywords: vec!["攻速", "攻击速度", "暴击"], tag: "generic_combat", power: 20, lock: 0 },
        2 => KeywordRule { keywords: vec!["生命值", "护甲", "魔抗", "双抗", "护盾", "治疗"], tag: "generic_combat", power: 15, lock: 0 },
        3 => KeywordRule { keywords: vec!["攻击力", "攻速", "攻击速度", "物理伤害", "ad"], tag: "damage_ad", power: 0, lock: 0 },
        4 => KeywordRule { keywords: vec!["法术强度", "法强", "魔法伤害", "ap"], tag: "damage_ap", power: 0, lock: 0 },
        5 => KeywordRule { keywords: vec!["重伤", "减疗", "治疗降低"], tag: "anti_heal", power: 5, lock: 0 },
        6 => KeywordRule { keywords: vec!["灼烧", "燃烧"], tag: "burn", power: 5, lock: 0 },
        7 => KeywordRule { keywords: vec!["护甲击碎", "破甲", "穿甲"], tag: "armor_shred", power: 5, lock: 0 },
        8 => KeywordRule { keywords: vec!["魔抗击碎", "破防", "减魔抗"], tag: "mr_shred", power: 5, lock: 0 },
        9 => KeywordRule { keywords: vec!["回蓝", "启动", "法力值"], tag: "mana_engine", power: 5, lock: 0 },
        10 => KeywordRule { keywords: vec!["技能暴击", "暴击体系"], tag: "crit_enable", power: 5, lock: 0 },
        11 => KeywordRule { keywords: vec!["吸血", "续航", "全能吸血"], tag: "sustain", power: 5, lock: 0 },
        12 => KeywordRule { keywords: vec!["护盾"], tag: "shield_survival", power: 5, lock: 0 },
        13 => KeywordRule { keywords: vec!["光环", "团队增益", "全队"], tag: "aura_team_buff", power: 5, lock: 0 },
        14 => KeywordRule { keywords: vec!["唯一", "不可叠加"], tag: "unique_trigger", power: 0, lock: 0 },
        15 => KeywordRule { keywords: vec!["金币", "经济", "利息", "免费"], tag: "generic_econ", power: 5, lock: 0 },
        16 => KeywordRule { keywords: vec!["刷新", "商店", "d牌", "免费刷新"], tag: "generic_econ", power: 10, lock: 0 },
        17 => KeywordRule { keywords: vec!["经验", "等级", "人口", "升星"], tag: "generic_econ", power: 10, lock: 0 },
        18 => KeywordRule { keywords: vec!["装备", "散件", "锻造", "重铸", "拆卸", "组件"], tag: "generic_item", power: 15, lock: 0 },
        19 => KeywordRule { keywords: vec!["成装", "神器", "奥恩", "光明"], tag: "generic_item", power: 25, lock: 10 },
        20 => KeywordRule { keywords: vec!["羁绊", "纹章", "转职", "之心", "之魂", "之冕"], tag: "trait_commit", power: 20, lock: 30 },
        21 => KeywordRule { keywords: vec!["专属", "英雄强化"], tag: "hero_commit", power: 30, lock: 60 },
        22 => KeywordRule { keywords: vec!["刷新", "复制", "免费"], tag: "reroll_enable", power: 5, lock: 20 },
        23 => KeywordRule { keywords: vec!["低费", "1费", "2费", "三星"], tag: "reroll_enable", power: 0, lock: 30 },
        24 => KeywordRule { keywords: vec!["连胜", "节奏", "前期", "开局"], tag: "tempo", power: 20, lock: 10 },
        25 => KeywordRule { keywords: vec!["后期", "上限", "高费", "彩色"], tag: "late_cap", power: 5, lock: 10 },
        26 => KeywordRule { keywords: vec!["星神", "神明", "天选", "任务", "传奇"], tag: "mode_special", power: 10, lock: 40 },
        27 => KeywordRule { keywords: vec!["高风险", "赌", "概率", "随机"], tag: "high_risk", power: 10, lock: 30 },
        _ => KeywordRule { keywords: vec![], tag: "", power: 0, lock: 0 },
    };
    assert(keyword_rule_view(r).keywords =~= tag_rule(i as int).keywords);
    r
}

fn rule_applies(text: &Vec<char>, rule: &KeywordRule) -> (b: bool)
    ensures
        b == rule_fires(text@, keyword_rule_view(*rule)),
{
    let ghost kv = keyword_rule_view(*rule).keywords;
    let mut k: usize = 0;
    while k < rule.keywords.len()
        invariant
            kv == rule.keywords@.map_values(|w: &str| w@),
            k <= rule.keywords@.len(),
            forall|j: int| 0 <= j < k ==> !has_sub(text@, #[trigger] kv[j]),
        decreases rule.keywords@.len() - k,
    {
        if contains_str(text, rule.keywords[k]) {
            assert(kv[k as int] == keyword_rule_view(*rule).keywords[k as int]);
            assert(has_sub(text@, keyword_rule_view(*rule).keywords[k as int]));
            return true;
        }
        k = k + 1;
    }
    false
}

/// The explanation given for a tag.
pub fn reason_for_tag(tag: &str) -> (r: String)
    ensures
        r@ == tag_reason(tag@),
{
    if str_eq(tag, "generic_combat") {
        owned("提供通用即时战力")
    } else if str_eq(tag, "generic_econ") {
        owned("提供经济/运营收益")
    } else if str_eq(tag, "generic_item") {
        owned("提供装备/散件弹性")
    } else if str_eq(tag, "trait_commit") {
        owned("绑定羁绊方向")
    } else if str_eq(tag, "hero_commit") {
        owned("绑定特定英雄")
    } else if str_eq(tag, "reroll_enable") {
        owned("低费/赌狗路线加成")
    } else if str_eq(tag, "tempo") {
        owned("前中期节奏优势")
    } else if str_eq(tag, "late_cap") {
        owned("后期上限提升")
    } else if str_eq(tag, "high_risk") {
        owned("高风险高收益")
    } else if str_eq(tag, "anti_heal") {
        owned("提供重伤/减疗覆盖")
    } else if str_eq(tag, "burn") {
        owned("提供灼烧覆盖")
    } else if str_eq(tag, "armor_shred") {
        owned("提供护甲击碎")
    } else if str_eq(tag, "mr_shred") {
        owned("提供魔抗击碎")
    } else if str_eq(tag, "mana_engine") {
        owned("提供回蓝/启动收益")
    } else if str_eq(tag, "crit_enable") {
        owned("提供暴击体系收益")
    } else if str_eq(tag, "sustain") {
        owned("提供续航收益")
    } else if str_eq(tag, "shield_survival") {
        owned("提供护盾生存收益")
    } else if str_eq(tag, "aura_team_buff") {
        owned("提供团队增益覆盖")
    } else if str_eq(tag, "unique_trigger") {
        owned("包含唯一触发效果")
    } else if str_eq(tag, "damage_ad") {
        owned("偏 AD 输出收益")
    } else if str_eq(tag, "damage_ap") {
        owned("偏 AP 输出收益")
    } else {
        cat("标签: ", tag)
    }
}

impl AugmentEffectInterpreter {
    /// Interprets an augment from its already lower-cased text (name, a space,
    /// description), its level, and the number of lineups recommending it.
    pub fn interpret_text(
        augment_id: &str,
        augment_name: &str,
        text: &str,
        augment_level: i32,
        lineup_recommended_count: i32,
    ) -> (effect: AugmentEffect)
        ensures
            is_interpretation(
                effect,
                augment_id@,
                augment_name@,
                text@,
                augment_level as int,
                lineup_recommended_count as int,
            ),
    {
        let chars = chars_of(text);
        let mut tags: Vec<String> = Vec::new();
        let mut immediate_power: i32 = 30;
        let mut lock_risk: i32 = 20;
        let mut reroll_value: i32 = 0;
        let mut i: usize = 0;
        while i < 28
            invariant
                chars@ == text@,
                i <= tag_rule_count(),
                views(tags@) == tally(text@, i as nat).tags,
                immediate_power == tally(text@, i as nat).power,
                lock_risk == tally(text@, i as nat).lock,
                reroll_value == tally(text@, i as nat).reroll,
            decreases 28 - i,
        {
            proof {
                lemma_tally_bounds(text@, i as nat);
                lemma_rule_bounds(i as int);
            }
            let rule = keyword_rule(i);
            if rule_applies(&chars, &rule) {
                if !list_has(&tags, rule.tag) {
                    let ghost before = tags@;
                    tags.push(owned(rule.tag));
                    assert(views(tags@) =~= views(before).push(rule.tag@));
                }
                immediate_power = immediate_power + rule.power;
                lock_risk = lock_risk + rule.lock;
                if str_eq(rule.tag, "reroll_enable") {
                    reroll_value = reroll_value + 15;
                }
            }
            i = i + 1;
        }
        proof {
            lemma_tally_bounds(text@, tag_rule_count());
        }
        if augment_level == 1 {
            immediate_power = immediate_power - 5;
            lock_risk = lock_risk - 10;
        } else if augment_level == 3 {
            immediate_power = immediate_power + 10;
            lock_risk = lock_risk + 10;
        }
        let lineup_coverage: i32 = if lineup_recommended_count < 5 {
            lineup_recommended_count
        } else {
            5
        };
        if lineup_coverage >= 3 {
            lock_risk = (lock_risk * 6) / 10;
        }
        if lineup_coverage == 0 {
            lock_risk = lock_risk + 15;
        }
        let mut reasons: Vec<String> = Vec::new();
        let mut j: usize = 0;
        while j < tags.len()
            invariant
                j <= tags@.len(),
                views(reasons@) == views(tags@).subrange(0, j as int).map_values(
                    |g: Seq<char>| tag_reason(g),
                ),
            decreases tags@.len() - j,
        {
            let ghost before = reasons@;
            let r = reason_for_tag(tags[j].as_str());
            assert(views(tags@)[j as int] == tags@[j as int]@);
            reasons.push(r);
            assert(reasons@ == before.push(r));
            assert(views(reasons@) =~= views(before).push(r@));
            j = j + 1;
            assert(views(reasons@) =~= views(tags@).subrange(0, j as int).map_values(
                |g: Seq<char>| tag_reason(g),
            ));
        }
        assert(views(tags@).subrange(0, tags@.len() as int) =~= views(tags@));
        AugmentEffect {
            augment_id: owned(augment_id),
            name: owned(augment_name),
            tags,
            immediate_power: clamp_i32(immediate_power, 0, 100),
            lineup_coverage,
            lock_risk: clamp_i32(lock_risk, 0, 100),
            reroll_value: clamp_i32(reroll_value, 0, 100),
            reason: reasons,
        }
    }

    /// Interprets an augment: lower-cases its name and description, then reads
    /// them through the keyword table.
    pub fn interpret(
        augment_id: &str,
        augment_name: &str,
        augment_desc: &str,
        augment_level: i32,
        lineup_recommended_count: i32,
    ) -> (effect: AugmentEffect)
        ensures
            is_interpretation(
                effect,
                augment_id@,
                augment_name@,
                combined_text(augment_name@, augment_desc@),
                augment_level as int,
                lineup_recommended_count as int,
            ),
    {
        let name_lower = to_lowercase(augment_name);
        let desc_lower = to_lowercase(augment_desc);
        let mut text = cat(name_lower.as_str(), " ");
        text.append(desc_lower.as_str());
        Self::interpret_text(
            augment_id,
            augment_name,
            text.as_str(),
            augment_level,
            lineup_recommended_count,
        )
    }
}

/// The count paired with `id` in `counts` (the first pair with that id), or 0.
pub open spec fn recommended_count(counts: Seq<(String, i32)>, id: Seq<char>) -> int
    decreases counts.len(),
{
    if counts.len() == 0 {
        0
    } else if counts[0].0@ == id {
        counts[0].1 as int
    } else {
        recommended_count(counts.drop_first(), id)
    }
}

fn lookup_count(counts: &[(String, i32)], id: &str) -> (c: i32)
    ensures
        c == recommended_count(counts@, id@),
{
    let mut i: usize = 0;
    assert(counts@.subrange(0, counts@.len() as int) =~= counts@);
    while i < counts.len()
        invariant
            i <= counts@.len(),
            recommended_count(counts@, id@) == recommended_count(
                counts@.subrange(i as int, counts@.len() as int),
                id@,
            ),
        decreases counts@.len() - i,
    {
        let ghost rest = counts@.subrange(i as int, counts@.len() as int);
        assert(rest[0] == counts@[i as int]);
        if str_eq(counts[i].0.as_str(), id) {
            return counts[i].1;
        }
        assert(rest.drop_first() =~= counts@.subrange(i + 1, counts@.len() as int));
        i = i + 1;
    }
    0
}

impl AugmentEffectInterpreter {
    /// Interprets each candidate `(id, name, description, level)`, with the
    /// recommendation count that `lineup_recommended_counts` gives its id.
    pub fn interpret_all(
        candidates: &[(String, String, String, i32)],
        lineup_recommended_counts: &[(String, i32)],
    ) -> (effects: Vec<AugmentEffect>)
        ensures
            effects@.len() == candidates@.len(),
            forall|i: int|
                0 <= i < candidates@.len() ==> is_interpretation(
                    #[trigger] effects@[i],
                    candidates@[i].0@,
                    candidates@[i].1@,
                    combined_text(candidates@[i].1@, candidates@[i].2@),
                    candidates@[i].3 as int,
                    recommended_count(lineup_recommended_counts@, candidates@[i].0@),
                ),
    {
        let mut effects: Vec<AugmentEffect> = Vec::new();
        let mut i: usize = 0;
        while i < candidates.len()
            invariant
                i <= candidates@.len(),
                effects@.len() == i,
                forall|k: int|
                    0 <= k < i ==> is_interpretation(
                        #[trigger] effects@[k],
                        candidates@[k].0@,
                        candidates@[k].1@,
                        combined_text(candidates@[k].1@, candidates@[k].2@),
                        candidates@[k].3 as int,
                        recommended_count(lineup_recommended_counts@, candidates@[k].0@),
                    ),
            decreases candidates@.len() - i,
        {
            let c = &candidates[i];
            let coverage = lookup_count(lineup_recommended_counts, c.0.as_str());
            let e = Self::interpret(c.0.as_str(), c.1.as_str(), c.2.as_str(), c.3, coverage);
            effects.push(e);
            i = i + 1;
        }
        effects
    }
}

} // verus!
