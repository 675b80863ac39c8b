//! Fixed rules: rival risk, opening classification and tempo advice.
use vstd::prelude::*;
use crate::error::HexResult;
use crate::text::{has_sub, owned, str_contains, str_eq};
use crate::types::{Equipment, EquipmentType, RecognizedFrame, RiskLevel};

verus! {

/// The fixed rule engine.
pub struct RulesEngine;

/// A magic component: a rod or a tear.
pub open spec fn magic_component(e: Equipment) -> bool {
    !e.completed && (has_sub(e.name@, "大棒"@) || has_sub(e.name@, "水滴"@))
}

/// A tank component: a chain vest or a belt.
pub open spec fn tank_component(e: Equipment) -> bool {
    !e.completed && (has_sub(e.name@, "锁子甲"@) || has_sub(e.name@, "腰带"@))
}

/// An attack component: any other offensive component.
pub open spec fn attack_component(e: Equipment) -> bool {
    !e.completed && e.equip_type == EquipmentType::Offensive && !magic_component(e) && !tank_component(e)
}

/// The numbers of attack, magic and tank components.
pub open spec fn component_counts(items: Seq<Equipment>) -> (int, int, int)
    decreases items.len(),
{
    if items.len() == 0 {
        (0, 0, 0)
    } else {
        let (a, m, t) = component_counts(items.drop_last());
        let e = items.last();
        (
            a + if attack_component(e) { 1int } else { 0int },
            m + if magic_component(e) { 1int } else { 0int },
            t + if tank_component(e) { 1int } else { 0int },
        )
    }
}

/// The opening family the components point to: magic when magic components
/// outnumber attack ones and are at least as many as tank ones, tank when
/// tank components outnumber both, physical otherwise.
pub open spec fn opening_family(items: Seq<Equipment>) -> Seq<char> {
    let (a, m, t) = component_counts(items);
    if m > a && m >= t {
        "法系"@
    } else if t > a && t > m {
        "重装"@
    } else {
        "物理"@
    }
}

/// The level advice of a round: level to 6 at 2-5, force level 8 at 4-1,
/// otherwise keep the level.
pub open spec fn level_text(round: Seq<char>) -> Seq<char> {
    if round == "2-5"@ {
        "升6人口"@
    } else if round == "4-1"@ {
        "强升8人口"@
    } else {
        "保持当前人口"@
    }
}

/// Risk from the number of rivals on the same composition.
pub open spec fn rival_risk(rival_count: u32) -> RiskLevel {
    if rival_count <= 1 {
        RiskLevel::Low
    } else if rival_count == 2 {
        RiskLevel::Medium
    } else {
        RiskLevel::High
    }
}

/// Roll advice by health.
pub open spec fn roll_text(hp: u32) -> Seq<char> {
    if hp >= 50 {
        "不D牌，保50利息"@
    } else if hp >= 30 {
        "小幅D牌提质量"@
    } else {
        "全力D牌保命"@
    }
}

impl RulesEngine {
    pub fn new() -> (e: Self) {
        RulesEngine
    }

    /// Risk level for the number of rivals on the same composition.
    pub fn assess_rival_risk(&self, rival_count: u32) -> (r: RiskLevel)
        ensures
            r == rival_risk(rival_count),
    {
        if rival_count <= 1 {
            RiskLevel::Low
        } else if rival_count == 2 {
            RiskLevel::Medium
        } else {
            RiskLevel::High
        }
    }

    /// The composition family to open with, from the components on hand:
    /// attack components point to physical, rods and tears to magic, chain
    /// vests and belts to tank. The pieces are not used.
    pub fn classify_opening(&self, equipment: &[Equipment], heroes: &[String]) -> (r: HexResult<String>)
        ensures
            r matches Ok(s) && s@ == opening_family(equipment@),
    {
        let mut a: usize = 0;
        let mut m: usize = 0;
        let mut t: usize = 0;
        let mut i: usize = 0;
        while i < equipment.len()
            invariant
                i <= equipment@.len(),
                (a as int, m as int, t as int) == component_counts(equipment@.subrange(0, i as int)),
                a <= i && m <= i && t <= i,
            decreases equipment@.len() - i,
        {
            assert(equipment@.subrange(0, i + 1).drop_last() =~= equipment@.subrange(0, i as int));
            let e = &equipment[i];
            let magic = !e.completed && (str_contains(e.name.as_str(), "大棒") || str_contains(e.name.as_str(), "水滴"));
            let tank = !e.completed && (str_contains(e.name.as_str(), "锁子甲") || str_contains(e.name.as_str(), "腰带"));
            let attack = !e.completed && e.equip_type == EquipmentType::Offensive && !magic && !tank;
            if attack {
                a = a + 1;
            }
            if magic {
                m = m + 1;
            }
            if tank {
                t = t + 1;
            }
            i = i + 1;
        }
        assert(equipment@.subrange(0, i as int) =~= equipment@);
        if m > a && m >= t {
            Ok(owned("法系"))
        } else if t > a && t > m {
            Ok(owned("重装"))
        } else {
            Ok(owned("物理"))
        }
    }

    /// Level-up advice for the round of a frame.
    pub fn level_advice(&self, state: &RecognizedFrame) -> (r: HexResult<String>)
        ensures
            r matches Ok(s) && s@ == level_text(state.round@),
    {
        if str_eq(state.round.as_str(), "2-5") {
            Ok(owned("升6人口"))
        } else if str_eq(state.round.as_str(), "4-1") {
            Ok(owned("强升8人口"))
        } else {
            Ok(owned("保持当前人口"))
        }
    }

    /// Roll advice by health.
    pub fn roll_advice(&self, hp: u32, gold: u32, rival_count: u32) -> (r: HexResult<String>)
        ensures
            r matches Ok(s) && s@ == roll_text(hp),
    {
        if hp >= 50 {
            Ok(owned("不D牌，保50利息"))
        } else if hp >= 30 {
            Ok(owned("小幅D牌提质量"))
        } else {
            Ok(owned("全力D牌保命"))
        }
    }

    /// Remedy for weak items: none for now.
    pub fn equip_remedy(&self, state: &RecognizedFrame) -> (r: HexResult<String>)
        ensures
            r matches Ok(s) && s@ == Seq::<char>::empty(),
    {
        Ok(String::new())
    }
}

impl Default for RulesEngine {
    fn default() -> (e: Self) {
        RulesEngine::new()
    }
}

} // verus!
