//! Stage damage: the health lost at a stage is its base damage plus the
//! surviving enemy pieces.
use vstd::prelude::*;
use std::collections::HashMap;
use vstd::std_specs::hash::group_hash_axioms;
use crate::num::max_int;
use crate::text::{owned, parse_i32, parse_i32_spec};

verus! {

broadcast use group_hash_axioms;

/// Base damage by stage.
#[derive(Debug, Clone)]
pub struct DamageProfile {
    /// Stage → base damage.
    pub stage_damage: HashMap<i32, i32>,
    pub version: String,
}

/// Writes version overrides to rule packs.
pub struct PatchOverrideLoader;

/// Base damage of a stage absent from the table.
pub open spec fn default_stage_damage(stage: int) -> int {
    if stage == 2 {
        0
    } else if stage == 3 {
        2
    } else if stage == 4 {
        4
    } else if stage == 5 {
        6
    } else if stage == 6 {
        8
    } else {
        max_int(stage - 1, 0) * 2
    }
}

/// The stage table of a rule pack's damage entries: each entry whose key
/// reads as a stage number sets that stage's damage, a later entry for the
/// same stage replacing an earlier one.
pub open spec fn damage_table(entries: Seq<(Seq<char>, i32)>) -> Map<i32, i32>
    decreases entries.len(),
{
    if entries.len() == 0 {
        Map::empty()
    } else {
        let m = damage_table(entries.drop_last());
        match parse_i32_spec(entries.last().0) {
            Some(stage) => m.insert(stage, entries.last().1),
            None => m,
        }
    }
}

impl DamageProfile {
    /// The damage table of a rule pack: its damage entries keyed by stage
    /// (entries whose key is not a number are skipped), and its version.
    pub fn from_rule_pack(damage_entries: &[(String, i32)], version: &str) -> (r: DamageProfile)
        ensures
            r.stage_damage@ == damage_table(damage_entries@.map_values(|e: (String, i32)| (e.0@, e.1))),
            r.version@ == version@,
    {
        let ghost ev = damage_entries@.map_values(|e: (String, i32)| (e.0@, e.1));
        let mut stage_damage: HashMap<i32, i32> = HashMap::new();
        let mut i: usize = 0;
        while i < damage_entries.len()
            invariant
                ev == damage_entries@.map_values(|e: (String, i32)| (e.0@, e.1)),
                i <= ev.len(),
                stage_damage@ == damage_table(ev.subrange(0, i as int)),
            decreases ev.len() - i,
        {
            assert(ev.subrange(0, i + 1).drop_last() =~= ev.subrange(0, i as int));
            assert(ev.subrange(0, i + 1).last() == (damage_entries@[i as int].0@, damage_entries@[i as int].1));
            match parse_i32(damage_entries[i].0.as_str()) {
                Some(stage) => {
                    stage_damage.insert(stage, damage_entries[i].1);
                },
                None => {},
            }
            i = i + 1;
        }
        assert(ev.subrange(0, i as int) =~= ev);
        DamageProfile { stage_damage, version: owned(version) }
    }

    /// Base damage of `stage`: the table's, else the built-in one.
    pub open spec fn base_damage(&self, stage: i32) -> int {
        if self.stage_damage@.contains_key(stage) {
            self.stage_damage@[stage] as int
        } else {
            default_stage_damage(stage as int)
        }
    }

    /// The base damage of `stage` is representable.
    pub open spec fn stage_fits(&self, stage: i32) -> bool {
        self.stage_damage@.contains_key(stage) || (i32::MIN < stage && stage <= 1073741824)
    }

    /// The damage with `survivors` enemy pieces left is representable.
    pub open spec fn damage_fits(&self, stage: i32, survivors: i32) -> bool {
        self.stage_fits(stage) && i32::MIN <= self.base_damage(stage) + survivors <= i32::MAX
    }

    /// Base damage of a stage.
    pub fn stage_damage(&self, stage: i32) -> (d: i32)
        requires
            self.stage_fits(stage),
        ensures
            d == self.base_damage(stage),
    {
        match self.stage_damage.get(&stage) {
            Some(d) => *d,
            None => {
                if stage == 2 {
                    0
                } else if stage == 3 {
                    2
                } else if stage == 4 {
                    4
                } else if stage == 5 {
                    6
                } else if stage == 6 {
                    8
                } else if stage - 1 > 0 {
                    (stage - 1) * 2
                } else {
                    0
                }
            },
        }
    }

    /// Health lost: base damage plus surviving enemy pieces.
    pub fn calculate_damage(&self, stage: i32, enemy_survivors: i32) -> (d: i32)
        requires
            self.damage_fits(stage, enemy_survivors),
        ensures
            d == self.base_damage(stage) + enemy_survivors,
    {
        self.stage_damage(stage) + enemy_survivors
    }

    /// Whether the loss is 8 or more.
    pub fn is_large_damage(&self, stage: i32, enemy_survivors: i32) -> (b: bool)
        requires
            self.damage_fits(stage, enemy_survivors),
        ensures
            b == (self.base_damage(stage) + enemy_survivors >= 8),
    {
        self.calculate_damage(stage, enemy_survivors) >= 8
    }

    /// Health lost with the fewest and the most survivors.
    pub fn damage_range(&self, stage: i32, min_survivors: i32, max_survivors: i32) -> (r: (i32, i32))
        requires
            self.damage_fits(stage, min_survivors),
            self.damage_fits(stage, max_survivors),
        ensures
            r.0 == self.base_damage(stage) + min_survivors,
            r.1 == self.base_damage(stage) + max_survivors,
    {
        (self.calculate_damage(stage, min_survivors), self.calculate_damage(stage, max_survivors))
    }
}

} // verus!
