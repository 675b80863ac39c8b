//! Knowledge models: hero capabilities, item value, augment and trait effect
//! profiles, and the keyword tables they are read with.
use vstd::prelude::*;
use crate::text::{owned, views};

verus! {

/// What a hero can do. The confidence is kept in percent.
#[derive(Debug, Clone)]
pub struct ChampionCapability {
    pub hero_id: String,
    pub name: String,
    pub cost: i32,
    pub traits: Vec<String>,
    pub role: ChampionRole,
    pub damage_profile: String,
    pub damage_pattern: Vec<String>,
    pub cast_pattern: String,
    pub scaling_stats: Vec<String>,
    pub position_role: String,
    pub item_strictness: String,
    pub power_spikes: Vec<PowerSpike>,
    pub risk_profile: Vec<String>,
    pub item_preferences: ItemPreferences,
    /// Confidence of the keyword reading, in percent (0-100).
    pub confidence_percent: i32,
    pub needs_override: bool,
}

/// Role of a hero.
#[derive(Debug, Clone, Copy, PartialEq, Eq, Structural)]
pub enum ChampionRole {
    PrimaryCarry,
    SecondaryCarry,
    MainTank,
    OffTank,
    Utility,
    Filler,
}

/// A point where a hero gets stronger.
#[derive(Debug, Clone)]
pub struct PowerSpike {
    /// `star`, `item_count` or `trait`.
    pub spike_type: String,
    pub value: i32,
    pub impact: i32,
}

/// Items by how well they suit a hero.
#[derive(Debug, Clone, Default)]
pub struct ItemPreferences {
    pub core: Vec<String>,
    pub strong: Vec<String>,
    pub acceptable: Vec<String>,
    pub emergency: Vec<String>,
    pub bad: Vec<String>,
}

/// What an item is worth and to whom.
#[derive(Debug, Clone)]
pub struct ItemValueProfile {
    pub item_id: String,
    pub name: String,
    pub item_type: String,
    pub stats: Vec<ItemStat>,
    pub effect_tags: Vec<String>,
    pub best_for_profiles: Vec<String>,
    pub bad_for_profiles: Vec<String>,
    pub replacement_group: String,
    pub conflict_group: String,
    pub stage_bias: String,
    pub tier: Option<String>,
    pub damage_type_fit: Vec<String>,
}

/// One change of a patch note and what it does to lineup scores.
#[derive(Debug, Clone)]
pub struct PatchEntry {
    pub patch_version: String,
    pub published_at: String,
    /// `champion`, `trait`, `item`, `augment`, `lineup` or `system`.
    pub target_type: String,
    pub target_id: String,
    pub target_name: String,
    /// `buff`, `nerf`, `adjust` or `rework`.
    pub change_type: String,
    pub impact_score: i32,
    /// Lineups the change is limited to; every lineup that uses the target
    /// when empty.
    pub affected_lineups: Vec<String>,
    pub reason: String,
}

/// A stat an item grants.
#[derive(Debug, Clone)]
pub struct ItemStat {
    pub name: String,
    pub value: i32,
}

/// What an augment does.
#[derive(Debug, Clone)]
pub struct AugmentEffectProfile {
    pub augment_id: String,
    pub name: String,
    pub level: i32,
    pub tags: Vec<String>,
    pub immediate_power: i32,
    pub lineup_coverage: i32,
    pub lock_risk: i32,
    pub hints: Vec<String>,
}

/// What a trait does.
#[derive(Debug, Clone)]
pub struct TraitEffectProfile {
    pub trait_id: String,
    pub name: String,
    /// `race` or `job`.
    pub trait_type: String,
    pub thresholds: Vec<i32>,
    pub effect_tags: Vec<String>,
    pub lineup_value: i32,
    pub desc: String,
}

/// Keyword tables, each keyed by tag in a fixed order.
#[derive(Debug, Clone)]
pub struct KnowledgeKeywords {
    pub version: String,
    pub damage_types: Vec<(String, Vec<String>)>,
    pub cast_patterns: Vec<(String, Vec<String>)>,
    pub attack_patterns: Vec<(String, Vec<String>)>,
    pub effect_tags: Vec<(String, Vec<String>)>,
    pub conflict_groups: Vec<(String, Vec<String>)>,
    pub damage_type_item_fit: Vec<(String, Vec<String>)>,
}

/// A keyword table as values.
pub type KeywordTable = Seq<(Seq<char>, Seq<Seq<char>>)>;

pub open spec fn kw_table(t: Seq<(String, Vec<String>)>) -> KeywordTable {
    t.map_values(|e: (String, Vec<String>)| (e.0@, views(e.1@)))
}

pub struct KeywordsView {
    pub version: Seq<char>,
    pub damage_types: KeywordTable,
    pub cast_patterns: KeywordTable,
    pub attack_patterns: KeywordTable,
    pub effect_tags: KeywordTable,
    pub conflict_groups: KeywordTable,
    pub damage_type_item_fit: KeywordTable,
}

impl View for KnowledgeKeywords {
    type V = KeywordsView;

    open spec fn view(&self) -> KeywordsView {
        KeywordsView {
            version: self.version@,
            damage_types: kw_table(self.damage_types@),
            cast_patterns: kw_table(self.cast_patterns@),
            attack_patterns: kw_table(self.attack_patterns@),
            effect_tags: kw_table(self.effect_tags@),
            conflict_groups: kw_table(self.conflict_groups@),
            damage_type_item_fit: kw_table(self.damage_type_item_fit@),
        }
    }
}

/// The built-in keyword tables.
pub open spec fn default_keywords() -> KeywordsView {
    KeywordsView {
        version: "S18.1"@,
        damage_types: seq![
            ("ad"@, seq!["攻击力"@, "物理伤害"@, "攻击"@]),
            ("ap"@, seq!["法术强度"@, "魔法伤害"@, "法强"@]),
            ("true_damage"@, seq!["真实伤害"@, "最大生命值"@]),
            ("tank"@, seq!["护甲"@, "魔抗"@, "生命值"@, "减伤"@]),
            ("utility"@, seq!["护盾"@, "治疗"@, "控制"@]),
        ],
        cast_patterns: seq![
            ("mana_cast"@, seq!["法力值"@, "施放"@, "蓝量"@]),
            ("attack_based"@, seq!["每次攻击"@, "普通攻击"@, "普攻"@]),
            ("passive"@, seq!["被动"@]),
            ("transform"@, seq!["变身"@, "变形"@]),
            ("summon"@, seq!["召唤"@, "分身"@]),
        ],
        attack_patterns: seq![
            ("burst"@, seq!["爆发"@, "一次性"@]),
            ("sustained"@, seq!["持续"@, "每秒"@]),
            ("execute"@, seq!["处决"@, "最大生命值"@]),
            ("aoe"@, seq!["范围"@, "周围"@, "全场"@]),
            ("single_target"@, seq!["单体"@, "目标"@]),
        ],
        effect_tags: seq![
            ("anti_heal"@, seq!["重伤"@, "减疗"@, "治疗降低"@]),
            ("armor_shred"@, seq!["护甲击碎"@, "降低护甲"@, "破甲"@]),
            ("mr_shred"@, seq!["魔抗击碎"@, "降低魔抗"@]),
            ("burn"@, seq!["灼烧"@, "燃烧"@]),
            ("mana_engine"@, seq!["回蓝"@, "法力值回复"@, "启动"@]),
            ("sustain"@, seq!["吸血"@, "全能吸血"@, "回复"@]),
            ("crit_enable"@, seq!["暴击"@, "技能暴击"@]),
            ("shield_survival"@, seq!["护盾"@, "保命"@, "夜刃"@]),
            ("aura_team_buff"@, seq!["光环"@, "团队"@]),
        ],
        conflict_groups: seq![
            ("anti_heal"@, seq!["日炎"@, "红霸符"@, "鬼书"@]),
            ("armor_shred"@, seq!["轻语"@, "薄暮"@]),
            ("mr_shred"@, seq!["离子"@, "虚空"@]),
            ("burn"@, seq!["日炎"@, "红霸符"@]),
        ],
        damage_type_item_fit: seq![
            ("ad"@, seq!["攻击力"@, "攻速"@, "暴击"@, "穿甲"@]),
            ("ap"@, seq!["法强"@, "回蓝"@, "暴击"@, "破防"@]),
            ("tank"@, seq!["生命"@, "双抗"@, "减伤"@, "回复"@]),
        ],
    }
}

fn one(a: &str) -> (r: Vec<String>)
    ensures
        views(r@) == seq![a@],
{
    let r = vec![owned(a)];
    assert(views(r@) =~= seq![a@]);
    r
}

fn two(a: &str, b: &str) -> (r: Vec<String>)
    ensures
        views(r@) == seq![a@, b@],
{
    let r = vec![owned(a), owned(b)];
    assert(views(r@) =~= seq![a@, b@]);
    r
}

fn three(a: &str, b: &str, c: &str) -> (r: Vec<String>)
    ensures
        views(r@) == seq![a@, b@, c@],
{
    let r = vec![owned(a), owned(b), owned(c)];
    assert(views(r@) =~= seq![a@, b@, c@]);
    r
}

fn four(a: &str, b: &str, c: &str, d: &str) -> (r: Vec<String>)
    ensures
        views(r@) == seq![a@, b@, c@, d@],
{
    let r = vec![owned(a), owned(b), owned(c), owned(d)];
    assert(views(r@) =~= seq![a@, b@, c@, d@]);
    r
}

impl Default for KnowledgeKeywords {
    fn default() -> (k: Self)
        ensures
            k@ == default_keywords(),
    {
        let damage_types = vec![
            (owned("ad"), three("攻击力", "物理伤害", "攻击")),
            (owned("ap"), three("法术强度", "魔法伤害", "法强")),
            (owned("true_damage"), two("真实伤害", "最大生命值")),
            (owned("tank"), four("护甲", "魔抗", "生命值", "减伤")),
            (owned("utility"), three("护盾", "治疗", "控制")),
        ];
        let cast_patterns = vec![
            (owned("mana_cast"), three("法力值", "施放", "蓝量")),
            (owned("attack_based"), three("每次攻击", "普通攻击", "普攻")),
            (owned("passive"), one("被动")),
            (owned("transform"), two("变身", "变形")),
            (owned("summon"), two("召唤", "分身")),
        ];
        let attack_patterns = vec![
            (owned("burst"), two("爆发", "一次性")),
            (owned("sustained"), two("持续", "每秒")),
            (owned("execute"), two("处决", "最大生命值")),
            (owned("aoe"), three("范围", "周围", "全场")),
            (owned("single_target"), two("单体", "目标")),
        ];
        let effect_tags = vec![
            (owned("anti_heal"), three("重伤", "减疗", "治疗降低")),
            (owned("armor_shred"), three("护甲击碎", "降低护甲", "破甲")),
            (owned("mr_shred"), two("魔抗击碎", "降低魔抗")),
            (owned("burn"), two("灼烧", "燃烧")),
            (owned("mana_engine"), three("回蓝", "法力值回复", "启动")),
            (owned("sustain"), three("吸血", "全能吸血", "回复")),
            (owned("crit_enable"), two("暴击", "技能暴击")),
            (owned("shield_survival"), three("护盾", "保命", "夜刃")),
            (owned("aura_team_buff"), two("光环", "团队")),
        ];
        let conflict_groups = vec![
            (owned("anti_heal"), three("日炎", "红霸符", "鬼书")),
            (owned("armor_shred"), two("轻语", "薄暮")),
            (owned("mr_shred"), two("离子", "虚空")),
            (owned("burn"), two("日炎", "红霸符")),
        ];
        let damage_type_item_fit = vec![
            (owned("ad"), four("攻击力", "攻速", "暴击", "穿甲")),
            (owned("ap"), four("法强", "回蓝", "暴击", "破防")),
            (owned("tank"), four("生命", "双抗", "减伤", "回复")),
        ];
        let k = KnowledgeKeywords {
            version: owned("S18.1"),
            damage_types,
            cast_patterns,
            attack_patterns,
            effect_tags,
            conflict_groups,
            damage_type_item_fit,
        };
        assert(k@.damage_types =~= default_keywords().damage_types);
        assert(k@.cast_patterns =~= default_keywords().cast_patterns);
        assert(k@.attack_patterns =~= default_keywords().attack_patterns);
        assert(k@.effect_tags =~= default_keywords().effect_tags);
        assert(k@.conflict_groups =~= default_keywords().conflict_groups);
        assert(k@.damage_type_item_fit =~= default_keywords().damage_type_item_fit);
        k
    }
}

} // verus!
