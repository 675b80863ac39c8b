//! Combat profiles of heroes: role, damage type, attack pattern, targeting,
//! cast tempo and special tags read from the skill text, with the base stats.
use vstd::prelude::*;
use crate::data_types::HeroData;
use crate::text::{cat, chars_of, clone_strings, contains_str, has_sub, lowercase_of, owned, parse_i32, parse_i32_spec, push_str, str_contains, to_lowercase, views};

verus! {

/// Builds combat profiles.
pub struct ChampionCombatProfileBuilder;

/// How a hero fights. The attack speed is kept as the hero data gives it.
#[derive(Debug, Clone)]
pub struct ChampionCombatProfile {
    pub hero_id: String,
    pub name: String,
    pub cost: i32,
    pub role_tags: Vec<String>,
    pub damage_type: String,
    pub attack_pattern: Vec<String>,
    pub targeting: String,
    pub cast_tempo: String,
    pub special_tags: Vec<String>,
    pub base_hp: i32,
    pub base_armor: i32,
    pub base_mr: i32,
    pub base_ad: i32,
    pub attack_speed: String,
}

pub struct ProfileView {
    pub hero_id: Seq<char>,
    pub name: Seq<char>,
    pub cost: i32,
    pub role_tags: Seq<Seq<char>>,
    pub damage_type: Seq<char>,
    pub attack_pattern: Seq<Seq<char>>,
    pub targeting: Seq<char>,
    pub cast_tempo: Seq<char>,
    pub special_tags: Seq<Seq<char>>,
    pub base_hp: i32,
    pub base_armor: i32,
    pub base_mr: i32,
    pub base_ad: i32,
    pub attack_speed: Seq<char>,
}

impl View for ChampionCombatProfile {
    type V = ProfileView;

    open spec fn view(&self) -> ProfileView {
        ProfileView {
            hero_id: self.hero_id@,
            name: self.name@,
            cost: self.cost,
            role_tags: views(self.role_tags@),
            damage_type: self.damage_type@,
            attack_pattern: views(self.attack_pattern@),
            targeting: self.targeting@,
            cast_tempo: self.cast_tempo@,
            special_tags: views(self.special_tags@),
            base_hp: self.base_hp,
            base_armor: self.base_armor,
            base_mr: self.base_mr,
            base_ad: self.base_ad,
            attack_speed: self.attack_speed@,
        }
    }
}

/// The number a text holds, or `default` when it holds none.
pub open spec fn int_or(text: Seq<char>, default: i32) -> i32 {
    match parse_i32_spec(text) {
        Some(v) => v,
        None => default,
    }
}

/// The lowercased skill name and description the keywords are looked for in.
pub open spec fn combat_text(hero: HeroData) -> Seq<char> {
    lowercase_of(hero.skillName@ + " "@ + hero.skillDesc@)
}

/// `t` followed by `x` when `c` holds.
pub open spec fn push_if(t: Seq<Seq<char>>, c: bool, x: Seq<char>) -> Seq<Seq<char>> {
    if c {
        t.push(x)
    } else {
        t
    }
}

/// Role tags: tank by health and resistances, carry by damage, then control
/// and utility; utility when nothing else applies.
pub open spec fn roles_spec(d: Seq<char>, hero: HeroData) -> Seq<Seq<char>> {
    let hp = int_or(hero.initHP@, 500);
    let armor = int_or(hero.armor@, 30);
    let mr = int_or(hero.magicResist@, 30);
    let ad = int_or(hero.initAttackDamage@, 50);
    let main_tank = hp > 800 || armor > 50 || mr > 50;
    let tank: Seq<Seq<char>> = if main_tank {
        seq!["主坦"@]
    } else if hp > 600 || armor > 40 {
        seq!["副坦"@]
    } else {
        seq![]
    };
    let carry = if ad > 70 || has_sub(d, "伤害"@) || has_sub(d, "攻击"@) {
        if main_tank {
            tank.push("副C"@)
        } else {
            tank.push("主C"@)
        }
    } else if ad > 50 {
        tank.push("副C"@)
    } else {
        tank
    };
    let control = push_if(
        carry,
        has_sub(d, "眩晕"@) || has_sub(d, "击飞"@) || has_sub(d, "冰冻"@) || has_sub(d, "恐惧"@) || has_sub(
            d,
            "嘲讽"@,
        ),
        "控制"@,
    );
    let support = push_if(control, has_sub(d, "护盾"@) || has_sub(d, "治疗"@) || has_sub(d, "回复"@), "功能"@);
    if support.len() == 0 {
        seq!["功能"@]
    } else {
        support
    }
}

/// Damage type: true damage first, then mixed, magic, physical; without a
/// keyword, magic when the skill scales by percent or mentions spells.
pub open spec fn damage_type_spec(d: Seq<char>, hero: HeroData) -> Seq<char> {
    let has_ad = has_sub(d, "攻击力"@) || has_sub(d, "物理"@);
    let has_ap = has_sub(d, "法术强度"@) || has_sub(d, "法强"@) || has_sub(d, "魔法"@);
    let has_true = has_sub(d, "真实伤害"@) || has_sub(d, "最大生命值"@);
    if has_true {
        "真实"@
    } else if has_ad && has_ap {
        "混合"@
    } else if has_ap {
        "魔法"@
    } else if has_ad {
        "物理"@
    } else if has_sub(hero.skillBriefValue@, "%"@) || has_sub(hero.skillDesc@, "法术"@) {
        "魔法"@
    } else {
        "物理"@
    }
}

/// Attack patterns; single-target when no other applies.
pub open spec fn attack_pattern_spec(d: Seq<char>) -> Seq<Seq<char>> {
    let a = push_if(
        seq![],
        has_sub(d, "范围"@) || has_sub(d, "周围"@) || has_sub(d, "所有敌人"@) || has_sub(d, "全场"@),
        "范围"@,
    );
    let b = push_if(a, has_sub(d, "弹射"@), "弹射"@);
    let c = push_if(b, has_sub(d, "穿透"@), "穿透"@);
    let e = push_if(c, has_sub(d, "召唤"@) || has_sub(d, "分身"@), "召唤物"@);
    if e.len() == 0 {
        seq!["单体"@]
    } else {
        e
    }
}

/// Targeting.
pub open spec fn targeting_spec(d: Seq<char>) -> Seq<char> {
    if has_sub(d, "距离最远"@) {
        "最远"@
    } else if has_sub(d, "血量最低"@) {
        "最低血量"@
    } else if has_sub(d, "敌人最多"@) || has_sub(d, "最密集"@) {
        "最密集"@
    } else if has_sub(d, "后排"@) {
        "后排"@
    } else {
        "当前目标"@
    }
}

/// Cast tempo from the share of mana a hero starts with, then its maximum.
pub open spec fn cast_tempo_spec(hero: HeroData) -> Seq<char> {
    let init_mp = int_or(hero.initMP@, 0) as int;
    let max_mp = int_or(hero.maxMP@, 100) as int;
    let m = if max_mp > 1 {
        max_mp
    } else {
        1
    };
    if 2 * init_mp > m {
        "快启动"@
    } else if 4 * init_mp > m {
        "中启动"@
    } else if max_mp <= 50 {
        "快启动"@
    } else if max_mp >= 120 {
        "慢启动"@
    } else {
        "中启动"@
    }
}

/// Special tags.
pub open spec fn special_tags_spec(d: Seq<char>) -> Seq<Seq<char>> {
    let a = push_if(seq![], has_sub(d, "处决"@) || has_sub(d, "最大生命值"@), "处决"@);
    let b = push_if(a, has_sub(d, "护甲击碎"@) || has_sub(d, "降低护甲"@) || has_sub(d, "破甲"@), "破甲"@);
    let c = push_if(b, has_sub(d, "魔抗击碎"@) || has_sub(d, "降低魔抗"@), "魔抗击碎"@);
    let e = push_if(c, has_sub(d, "重伤"@) || has_sub(d, "减疗"@) || has_sub(d, "治疗降低"@), "减疗"@);
    let f = push_if(e, has_sub(d, "护盾"@), "护盾"@);
    let g = push_if(f, has_sub(d, "治疗"@) || has_sub(d, "回复"@) || has_sub(d, "吸血"@), "治疗"@);
    push_if(g, has_sub(d, "暴击"@) || has_sub(d, "会心"@), "技能暴击"@)
}

/// The profile of a hero.
pub open spec fn profile_spec(hero: HeroData) -> ProfileView {
    let d = combat_text(hero);
    ProfileView {
        hero_id: hero.id@,
        name: hero.name@,
        cost: hero.cost,
        role_tags: roles_spec(d, hero),
        damage_type: damage_type_spec(d, hero),
        attack_pattern: attack_pattern_spec(d),
        targeting: targeting_spec(d),
        cast_tempo: cast_tempo_spec(hero),
        special_tags: special_tags_spec(d),
        base_hp: int_or(hero.initHP@, 500),
        base_armor: int_or(hero.armor@, 30),
        base_mr: int_or(hero.magicResist@, 30),
        base_ad: int_or(hero.initAttackDamage@, 50),
        attack_speed: hero.attackSpeed@,
    }
}

fn int_or_exec(text: &str, default: i32) -> (r: i32)
    ensures
        r == int_or(text@, default),
{
    match parse_i32(text) {
        Some(v) => v,
        None => default,
    }
}

fn push_tag(t: &mut Vec<String>, c: bool, x: &str)
    ensures
        views(final(t)@) == push_if(views(old(t)@), c, x@),
{
    if c {
        let ghost before = views(t@);
        t.push(owned(x));
        assert(views(t@) =~= before.push(x@));
    }
}

/// Whether the text holds any of the needles.
fn has_any(d: &Vec<char>, a: &str, b: &str, c: &str) -> (r: bool)
    ensures
        r == (has_sub(d@, a@) || has_sub(d@, b@) || has_sub(d@, c@)),
{
    contains_str(d, a) || contains_str(d, b) || contains_str(d, c)
}

fn single(x: &str) -> (r: Vec<String>)
    ensures
        views(r@) == seq![x@],
{
    let r = vec![owned(x)];
    assert(views(r@) =~= seq![x@]);
    r
}

impl ChampionCombatProfileBuilder {
    fn classify_roles(d: &Vec<char>, hero: &HeroData) -> (r: Vec<String>)
        ensures
            views(r@) == roles_spec(d@, *hero),
    {
        let hp = int_or_exec(hero.initHP.as_str(), 500);
        let armor = int_or_exec(hero.armor.as_str(), 30);
        let mr = int_or_exec(hero.magicResist.as_str(), 30);
        let ad = int_or_exec(hero.initAttackDamage.as_str(), 50);
        let main_tank = hp > 800 || armor > 50 || mr > 50;
        let mut roles: Vec<String> = Vec::new();
        assert(views(roles@) =~= Seq::<Seq<char>>::empty());
        if main_tank {
            push_tag(&mut roles, true, "主坦");
        } else if hp > 600 || armor > 40 {
            push_tag(&mut roles, true, "副坦");
        }
        if ad > 70 || contains_str(d, "伤害") || contains_str(d, "攻击") {
            if main_tank {
                push_tag(&mut roles, true, "副C");
            } else {
                push_tag(&mut roles, true, "主C");
            }
        } else if ad > 50 {
            push_tag(&mut roles, true, "副C");
        }
        let control = has_any(d, "眩晕", "击飞", "冰冻") || contains_str(d, "恐惧") || contains_str(d, "嘲讽");
        push_tag(&mut roles, control, "控制");
        let support = has_any(d, "护盾", "治疗", "回复");
        push_tag(&mut roles, support, "功能");
        if roles.len() == 0 {
            return single("功能");
        }
        roles
    }

    fn classify_damage_type(d: &Vec<char>, hero: &HeroData) -> (r: String)
        ensures
            r@ == damage_type_spec(d@, *hero),
    {
        let has_ad = contains_str(d, "攻击力") || contains_str(d, "物理");
        let has_ap = has_any(d, "法术强度", "法强", "魔法");
        let has_true = contains_str(d, "真实伤害") || contains_str(d, "最大生命值");
        if has_true {
            owned("真实")
        } else if has_ad && has_ap {
            owned("混合")
        } else if has_ap {
            owned("魔法")
        } else if has_ad {
            owned("物理")
        } else if str_contains(hero.skillBriefValue.as_str(), "%") || str_contains(hero.skillDesc.as_str(), "法术") {
            owned("魔法")
        } else {
            owned("物理")
        }
    }

    fn classify_attack_pattern(d: &Vec<char>) -> (r: Vec<String>)
        ensures
            views(r@) == attack_pattern_spec(d@),
    {
        let mut patterns: Vec<String> = Vec::new();
        assert(views(patterns@) =~= Seq::<Seq<char>>::empty());
        let area = has_any(d, "范围", "周围", "所有敌人") || contains_str(d, "全场");
        push_tag(&mut patterns, area, "范围");
        let bounce = contains_str(d, "弹射");
        push_tag(&mut patterns, bounce, "弹射");
        let pierce = contains_str(d, "穿透");
        push_tag(&mut patterns, pierce, "穿透");
        let summon = contains_str(d, "召唤") || contains_str(d, "分身");
        push_tag(&mut patterns, summon, "召唤物");
        if patterns.len() == 0 {
            return single("单体");
        }
        patterns
    }

    fn classify_targeting(d: &Vec<char>) -> (r: String)
        ensures
            r@ == targeting_spec(d@),
    {
        if contains_str(d, "距离最远") {
            owned("最远")
        } else if contains_str(d, "血量最低") {
            owned("最低血量")
        } else if contains_str(d, "敌人最多") || contains_str(d, "最密集") {
            owned("最密集")
        } else if contains_str(d, "后排") {
            owned("后排")
        } else {
            owned("当前目标")
        }
    }

    fn classify_cast_tempo(hero: &HeroData) -> (r: String)
        ensures
            r@ == cast_tempo_spec(*hero),
    {
        let init_mp = int_or_exec(hero.initMP.as_str(), 0) as i64;
        let max_mp = int_or_exec(hero.maxMP.as_str(), 100) as i64;
        let m: i64 = if max_mp > 1 { max_mp } else { 1 };
        if 2 * init_mp > m {
            owned("快启动")
        } else if 4 * init_mp > m {
            owned("中启动")
        } else if max_mp <= 50 {
            owned("快启动")
        } else if max_mp >= 120 {
            owned("慢启动")
        } else {
            owned("中启动")
        }
    }

    fn classify_special_tags(d: &Vec<char>) -> (r: Vec<String>)
        ensures
            views(r@) == special_tags_spec(d@),
    {
        let mut tags: Vec<String> = Vec::new();
        assert(views(tags@) =~= Seq::<Seq<char>>::empty());
        let execute = contains_str(d, "处决") || contains_str(d, "最大生命值");
        push_tag(&mut tags, execute, "处决");
        let armor = has_any(d, "护甲击碎", "降低护甲", "破甲");
        push_tag(&mut tags, armor, "破甲");
        let mr = contains_str(d, "魔抗击碎") || contains_str(d, "降低魔抗");
        push_tag(&mut tags, mr, "魔抗击碎");
        let heal_cut = has_any(d, "重伤", "减疗", "治疗降低");
        push_tag(&mut tags, heal_cut, "减疗");
        let shield = contains_str(d, "护盾");
        push_tag(&mut tags, shield, "护盾");
        let heal = has_any(d, "治疗", "回复", "吸血");
        push_tag(&mut tags, heal, "治疗");
        let crit = contains_str(d, "暴击") || contains_str(d, "会心");
        push_tag(&mut tags, crit, "技能暴击");
        tags
    }

    /// The combat profile of a hero.
    pub fn build(hero: &HeroData) -> (p: ChampionCombatProfile)
        ensures
            p@ == profile_spec(*hero),
    {
        let mut text = cat(hero.skillName.as_str(), " ");
        push_str(&mut text, hero.skillDesc.as_str());
        let lowered = to_lowercase(text.as_str());
        let d = chars_of(lowered.as_str());
        ChampionCombatProfile {
            hero_id: hero.id.clone(),
            name: hero.name.clone(),
            cost: hero.cost,
            role_tags: Self::classify_roles(&d, hero),
            damage_type: Self::classify_damage_type(&d, hero),
            attack_pattern: Self::classify_attack_pattern(&d),
            targeting: Self::classify_targeting(&d),
            cast_tempo: Self::classify_cast_tempo(hero),
            special_tags: Self::classify_special_tags(&d),
            base_hp: int_or_exec(hero.initHP.as_str(), 500),
            base_armor: int_or_exec(hero.armor.as_str(), 30),
            base_mr: int_or_exec(hero.magicResist.as_str(), 30),
            base_ad: int_or_exec(hero.initAttackDamage.as_str(), 50),
            attack_speed: hero.attackSpeed.clone(),
        }
    }

    /// The profiles of several heroes, in order.
    pub fn build_all(heroes: &[&HeroData]) -> (r: Vec<ChampionCombatProfile>)
        ensures
            r@.len() == heroes@.len(),
            forall|i: int| 0 <= i < r@.len() ==> (#[trigger] r@[i])@ == profile_spec(*heroes@[i]),
    {
        let mut r: Vec<ChampionCombatProfile> = Vec::new();
        let mut i: usize = 0;
        while i < heroes.len()
            invariant
                i <= heroes@.len(),
                r@.len() == i,
                forall|k: int| 0 <= k < i ==> (#[trigger] r@[k])@ == profile_spec(*heroes@[k]),
            decreases heroes@.len() - i,
        {
            r.push(Self::build(heroes[i]));
            i = i + 1;
        }
        r
    }
}

} // verus!
