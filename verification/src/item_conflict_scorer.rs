//! Conflict scoring of overlapping item effects: sources of the same effect
//! group lose value with each repetition, less so when they cover the effect in
//! different ways or when the matchup calls for the effect.
use vstd::prelude::*;
use crate::keyed::{first_key, lookup, lemma_lookup_first, lemma_lookup_absent, table_view, unique_keys};
use crate::knowledge_types::ItemValueProfile;
use crate::num::{div10_toward_zero, min_int};
use crate::order::{is_permutation, occurs, sorted_by_index, sorted_texts, sorting_permutation, strictly_sorted, text_lt, distinct_texts};
use crate::text::{
    cat, clone_strings, int_text, int_to_text, join, joined, list_has, owned, push_str, str_eq,
    views,
};

verus! {

/// How a source applies its effect.
#[derive(Debug, Clone, Copy, PartialEq, Eq, Structural)]
pub enum CoverageType {
    SingleTarget,
    SingleTargetSpell,
    AoeAura,
    AoeSpell,
    AttackTrigger,
    FlatRegen,
    TimeBased,
    Unknown,
}

/// An item that belongs to a conflict group.
#[derive(Debug, Clone)]
pub struct ConflictEntry {
    pub item_id: String,
    pub item_name: String,
    pub coverage: CoverageType,
}

/// Share of value (percent) kept by the first, second and later sources.
#[derive(Debug, Clone, Copy, PartialEq, Eq, Structural)]
pub struct ConflictStackingPolicy {
    pub first_source: i32,
    pub second_source: i32,
    pub third_plus_source: i32,
}

/// A group of items whose effects overlap.
#[derive(Debug, Clone)]
pub struct ItemConflictGroup {
    pub label: String,
    pub conflicts: Vec<ConflictEntry>,
    pub stacking_policy: ConflictStackingPolicy,
    pub notes: String,
}

/// The conflict groups of a patch, keyed by group id.
#[derive(Debug, Clone)]
pub struct ItemConflictGroups {
    pub version: String,
    pub groups: Vec<(String, ItemConflictGroup)>,
}

/// A named stacking policy: value kept by the first, second, ... source.
#[derive(Debug, Clone)]
pub struct StackingPolicyDef {
    pub description: String,
    pub value_per_source: Vec<i32>,
}

/// Penalty relief granted to some groups in a matchup.
#[derive(Debug, Clone)]
pub struct EnvironmentModifier {
    pub description: String,
    pub effect: String,
    pub groups: Vec<String>,
    pub penalty_relief: i32,
}

/// Stacking policies of a patch, keyed by name, with the matchup modifiers.
#[derive(Debug, Clone)]
pub struct StackingPolicies {
    pub version: String,
    pub policies: Vec<(String, StackingPolicyDef)>,
    pub default_policy: String,
    pub environment_modifiers: Vec<(String, EnvironmentModifier)>,
}

/// The matchup the items are judged in.
#[derive(Debug, Clone, Copy, Default, PartialEq, Eq, Structural)]
pub struct ConflictEnvironment {
    pub opponent_heal_heavy: bool,
    pub opponent_frontline_thick: bool,
    pub opponent_burst_heavy: bool,
    pub own_ap_heavy: bool,
    pub own_ad_heavy: bool,
}

/// One source of an effect (item, augment, trait, skill).
#[derive(Debug, Clone)]
pub struct EffectSource {
    pub source_type: String,
    pub source_id: String,
    pub source_name: String,
    pub group_id: String,
    pub coverage: CoverageType,
    pub weight: i32,
}

/// A repeated effect and what the repetition costs.
#[derive(Debug, Clone)]
pub struct ConflictWarning {
    pub group_id: String,
    pub group_label: String,
    /// Sources beyond the first.
    pub existing_sources: usize,
    /// Zero or negative.
    pub penalty_score: i32,
    pub remaining_value: String,
    pub explanation: String,
}

/// Conflicts of a whole team.
#[derive(Debug, Clone)]
pub struct TeamConflictReport {
    /// For each conflicting item, the warnings it takes part in.
    pub item_conflicts: Vec<(String, Vec<ConflictWarning>)>,
    pub covered_groups: Vec<String>,
    pub uncovered_groups: Vec<String>,
    pub total_penalty: i32,
    pub coverage_explanation: String,
}

/// Scores conflicts between effect sources.
pub struct ItemConflictScorer {
    pub groups: Vec<(String, ItemConflictGroup)>,
    pub configured_value_per_source: Option<Vec<i32>>,
    pub environment_modifiers: Vec<(String, EnvironmentModifier)>,
}

// ---------------------------------------------------------------------------
// Views
// ---------------------------------------------------------------------------

pub struct EntryView {
    pub item_id: Seq<char>,
    pub item_name: Seq<char>,
    pub coverage: CoverageType,
}

impl View for ConflictEntry {
    type V = EntryView;

    open spec fn view(&self) -> EntryView {
        EntryView { item_id: self.item_id@, item_name: self.item_name@, coverage: self.coverage }
    }
}

pub struct GroupView {
    pub label: Seq<char>,
    pub conflicts: Seq<EntryView>,
    pub policy: ConflictStackingPolicy,
    pub notes: Seq<char>,
}

impl View for ItemConflictGroup {
    type V = GroupView;

    open spec fn view(&self) -> GroupView {
        GroupView {
            label: self.label@,
            conflicts: self.conflicts@.map_values(|e: ConflictEntry| e@),
            policy: self.stacking_policy,
            notes: self.notes@,
        }
    }
}

pub struct ModifierView {
    pub description: Seq<char>,
    pub effect: Seq<char>,
    pub groups: Seq<Seq<char>>,
    pub penalty_relief: i32,
}

impl View for EnvironmentModifier {
    type V = ModifierView;

    open spec fn view(&self) -> ModifierView {
        ModifierView {
            description: self.description@,
            effect: self.effect@,
            groups: views(self.groups@),
            penalty_relief: self.penalty_relief,
        }
    }
}

pub struct SourceView {
    pub source_type: Seq<char>,
    pub source_id: Seq<char>,
    pub source_name: Seq<char>,
    pub group_id: Seq<char>,
    pub coverage: CoverageType,
    pub weight: i32,
}

impl View for EffectSource {
    type V = SourceView;

    open spec fn view(&self) -> SourceView {
        SourceView {
            source_type: self.source_type@,
            source_id: self.source_id@,
            source_name: self.source_name@,
            group_id: self.group_id@,
            coverage: self.coverage,
            weight: self.weight,
        }
    }
}

pub struct WarningView {
    pub group_id: Seq<char>,
    pub group_label: Seq<char>,
    pub existing_sources: int,
    pub penalty_score: int,
    pub remaining_value: Seq<char>,
    pub explanation: Seq<char>,
}

impl View for ConflictWarning {
    type V = WarningView;

    open spec fn view(&self) -> WarningView {
        WarningView {
            group_id: self.group_id@,
            group_label: self.group_label@,
            existing_sources: self.existing_sources as int,
            penalty_score: self.penalty_score as int,
            remaining_value: self.remaining_value@,
            explanation: self.explanation@,
        }
    }
}

/// The views of a list of values.
pub open spec fn seq_views<T: View>(s: Seq<T>) -> Seq<T::V> {
    s.map_values(|x: T| x@)
}

/// Group ids are unique.
pub open spec fn groups_well_formed(groups: Seq<(Seq<char>, GroupView)>) -> bool {
    unique_keys(groups)
}

impl ItemConflictScorer {
    pub open spec fn groups_view(&self) -> Seq<(Seq<char>, GroupView)> {
        table_view(self.groups@)
    }

    pub open spec fn values_view(&self) -> Option<Seq<i32>> {
        match self.configured_value_per_source {
            Some(v) => Some(v@),
            None => None,
        }
    }

    pub open spec fn modifiers_view(&self) -> Seq<(Seq<char>, ModifierView)> {
        table_view(self.environment_modifiers@)
    }

    /// The scorer's group table has unique group ids.
    pub open spec fn well_formed(&self) -> bool {
        groups_well_formed(self.groups_view())
    }
}

// ---------------------------------------------------------------------------
// Copies
// ---------------------------------------------------------------------------

fn clone_entry(e: &ConflictEntry) -> (r: ConflictEntry)
    ensures
        r@ == e@,
{
    ConflictEntry { item_id: e.item_id.clone(), item_name: e.item_name.clone(), coverage: e.coverage }
}

fn clone_group(g: &ItemConflictGroup) -> (r: ItemConflictGroup)
    ensures
        r@ == g@,
{
    let mut conflicts: Vec<ConflictEntry> = Vec::new();
    let mut i: usize = 0;
    while i < g.conflicts.len()
        invariant
            i <= g.conflicts@.len(),
            seq_views(conflicts@) == seq_views(g.conflicts@).subrange(0, i as int),
        decreases g.conflicts@.len() - i,
    {
        let e = clone_entry(&g.conflicts[i]);
        let ghost before = conflicts@;
        conflicts.push(e);
        assert(conflicts@ == before.push(e));
        assert(seq_views(conflicts@) =~= seq_views(before).push(e@));
        i = i + 1;
        assert(seq_views(conflicts@) =~= seq_views(g.conflicts@).subrange(0, i as int));
    }
    assert(seq_views(g.conflicts@).subrange(0, i as int) =~= seq_views(g.conflicts@));
    let r = ItemConflictGroup {
        label: g.label.clone(),
        conflicts,
        stacking_policy: g.stacking_policy,
        notes: g.notes.clone(),
    };
    assert(r@.conflicts =~= g@.conflicts);
    r
}

fn clone_modifier(m: &EnvironmentModifier) -> (r: EnvironmentModifier)
    ensures
        r@ == m@,
{
    EnvironmentModifier {
        description: m.description.clone(),
        effect: m.effect.clone(),
        groups: clone_strings(&m.groups),
        penalty_relief: m.penalty_relief,
    }
}

pub(crate) fn clone_group_table(t: &Vec<(String, ItemConflictGroup)>) -> (r: Vec<(String, ItemConflictGroup)>)
    ensures
        table_view(r@) == table_view(t@),
{
    let mut r: Vec<(String, ItemConflictGroup)> = Vec::new();
    let mut i: usize = 0;
    while i < t.len()
        invariant
            i <= t@.len(),
            table_view(r@) == table_view(t@).subrange(0, i as int),
        decreases t@.len() - i,
    {
        let e = (t[i].0.clone(), clone_group(&t[i].1));
        let ghost before = r@;
        r.push(e);
        assert(r@ == before.push(e));
        assert(table_view(r@) =~= table_view(before).push((e.0@, e.1@)));
        i = i + 1;
        assert(table_view(r@) =~= table_view(t@).subrange(0, i as int));
    }
    assert(table_view(t@).subrange(0, i as int) =~= table_view(t@));
    r
}

fn clone_modifier_table(t: &Vec<(String, EnvironmentModifier)>) -> (r: Vec<(String, EnvironmentModifier)>)
    ensures
        table_view(r@) == table_view(t@),
{
    let mut r: Vec<(String, EnvironmentModifier)> = Vec::new();
    let mut i: usize = 0;
    while i < t.len()
        invariant
            i <= t@.len(),
            table_view(r@) == table_view(t@).subrange(0, i as int),
        decreases t@.len() - i,
    {
        let e = (t[i].0.clone(), clone_modifier(&t[i].1));
        let ghost before = r@;
        r.push(e);
        assert(r@ == before.push(e));
        assert(table_view(r@) =~= table_view(before).push((e.0@, e.1@)));
        i = i + 1;
        assert(table_view(r@) =~= table_view(t@).subrange(0, i as int));
    }
    assert(table_view(t@).subrange(0, i as int) =~= table_view(t@));
    r
}

fn clone_i32s(v: &Vec<i32>) -> (r: Vec<i32>)
    ensures
        r@ == v@,
{
    let mut r: Vec<i32> = Vec::new();
    let mut i: usize = 0;
    while i < v.len()
        invariant
            i <= v@.len(),
            r@ == v@.subrange(0, i as int),
        decreases v@.len() - i,
    {
        r.push(v[i]);
        i = i + 1;
        assert(r@ =~= v@.subrange(0, i as int));
    }
    assert(r@ =~= v@);
    r
}

/// The values of the default policy, or `[100, 40, 10]` when it is not listed.
pub open spec fn default_policy_values(p: StackingPolicies) -> Seq<i32> {
    let table = p.policies@.map_values(|e: (String, StackingPolicyDef)| (e.0@, e.1.value_per_source@));
    match lookup(table, p.default_policy@) {
        Some(v) => v,
        None => seq![100i32, 40i32, 10i32],
    }
}

/// Value kept by the source at index `i` under the configured values: the
/// listed value, else the last one, else 100; 100 without configured values.
pub open spec fn default_weight(values: Option<Seq<i32>>, i: int) -> int {
    match values {
        None => 100,
        Some(v) => if i < v.len() {
            v[i] as int
        } else if v.len() > 0 {
            v.last() as int
        } else {
            100
        },
    }
}

/// A scorer built from stacking policies weighs the source at index `i` by the
/// default policy's value there, else by its last value, else 100, the
/// default policy's values being 100, 40, 10 when it is not listed; a scorer
/// built without policies weighs every source 100.
pub proof fn lemma_default_stacking_weight(p: StackingPolicies, i: int)
    requires
        0 <= i,
    ensures
        ({
            let v = default_policy_values(p);
            default_weight(Some(v), i) == if i < v.len() {
                v[i] as int
            } else if v.len() > 0 {
                v.last() as int
            } else {
                100int
            }
        }),
        (forall|k: int| 0 <= k < p.policies@.len() ==> #[trigger] p.policies@[k].0@ != p.default_policy@)
            ==> default_weight(Some(default_policy_values(p)), i) == if i == 0 {
            100int
        } else if i == 1 {
            40int
        } else {
            10int
        },
        default_weight(None, i) == 100,
{
    let table = p.policies@.map_values(|e: (String, StackingPolicyDef)| (e.0@, e.1.value_per_source@));
    if forall|k: int| 0 <= k < p.policies@.len() ==> #[trigger] p.policies@[k].0@ != p.default_policy@ {
        assert forall|k: int| 0 <= k < table.len() implies table[k].0 != p.default_policy@ by {
            assert(table[k].0 == p.policies@[k].0@);
        }
        lemma_lookup_absent(table, p.default_policy@);
    }
}

impl ItemConflictScorer {
    /// A scorer over the given conflict groups, using each group's own
    /// stacking policy and the built-in matchup reliefs.
    pub fn new(groups_config: &ItemConflictGroups) -> (s: Self)
        requires
            unique_keys(table_view(groups_config.groups@)),
        ensures
            s.groups_view() == table_view(groups_config.groups@),
            s.values_view() is None,
            s.modifiers_view().len() == 0,
            groups_well_formed(table_view(groups_config.groups@)) ==> s.well_formed(),
    {
        let s = ItemConflictScorer {
            groups: clone_group_table(&groups_config.groups),
            configured_value_per_source: None,
            environment_modifiers: Vec::new(),
        };
        assert(s.modifiers_view() =~= Seq::<(Seq<char>, ModifierView)>::empty());
        s
    }

    /// A scorer over the given conflict groups that takes the per-source values
    /// of the default stacking policy (`[100, 40, 10]` when it is not listed)
    /// and the configured matchup modifiers.
    pub fn new_with_stacking_policies(
        groups_config: &ItemConflictGroups,
        stacking_policies: &StackingPolicies,
    ) -> (s: Self)
        requires
            unique_keys(table_view(groups_config.groups@)),
        ensures
            s.groups_view() == table_view(groups_config.groups@),
            s.values_view() == Some(default_policy_values(*stacking_policies)),
            s.modifiers_view() == table_view(stacking_policies.environment_modifiers@),
            groups_well_formed(table_view(groups_config.groups@)) ==> s.well_formed(),
    {
        let ghost table = stacking_policies.policies@.map_values(
            |e: (String, StackingPolicyDef)| (e.0@, e.1.value_per_source@),
        );
        let values = match first_key(&stacking_policies.policies, stacking_policies.default_policy.as_str()) {
            Some(i) => {
                proof {
                    assert forall|j: int| 0 <= j < i implies table[j].0 != table[i as int].0 by {
                        assert(table[j].0 == stacking_policies.policies@[j].0@);
                    }
                    lemma_lookup_first(table, i as int);
                }
                clone_i32s(&stacking_policies.policies[i].1.value_per_source)
            },
            None => {
                proof {
                    assert forall|j: int| 0 <= j < table.len() implies table[j].0
                        != stacking_policies.default_policy@ by {
                        assert(table[j].0 == stacking_policies.policies@[j].0@);
                    }
                    lemma_lookup_absent(table, stacking_policies.default_policy@);
                }
                let v = vec![100i32, 40i32, 10i32];
                assert(v@ =~= seq![100i32, 40i32, 10i32]);
                v
            },
        };
        ItemConflictScorer {
            groups: clone_group_table(&groups_config.groups),
            configured_value_per_source: Some(values),
            environment_modifiers: clone_modifier_table(&stacking_policies.environment_modifiers),
        }
    }

    /// Value (percent) kept by the source at `source_index` of group
    /// `group_id` under the group's own policy: 100 for an unknown group.
    pub fn stacking_weight(&self, group_id: &str, source_index: usize) -> (w: i32)
        ensures
            w == match lookup(self.groups_view(), group_id@) {
                None => 100,
                Some(g) => if source_index == 0 {
                    g.policy.first_source
                } else if source_index == 1 {
                    g.policy.second_source
                } else {
                    g.policy.third_plus_source
                },
            },
    {
        match self.find_group(group_id) {
            None => 100,
            Some(i) => {
                let policy = self.groups[i].1.stacking_policy;
                if source_index == 0 {
                    policy.first_source
                } else if source_index == 1 {
                    policy.second_source
                } else {
                    policy.third_plus_source
                }
            },
        }
    }

    /// Value kept by the source at `source_index` under the configured default
    /// policy: the listed value, else the last one, else 100.
    pub fn default_stacking_weight(&self, source_index: usize) -> (w: i32)
        ensures
            w == default_weight(self.values_view(), source_index as int),
    {
        match &self.configured_value_per_source {
            None => 100,
            Some(v) => {
                if source_index < v.len() {
                    v[source_index]
                } else if v.len() > 0 {
                    v[v.len() - 1]
                } else {
                    100
                }
            },
        }
    }

    /// Position of the group with id `group_id`.
    fn find_group(&self, group_id: &str) -> (r: Option<usize>)
        ensures
            match r {
                Some(i) => i < self.groups@.len() && lookup(self.groups_view(), group_id@) == Some(
                    self.groups_view()[i as int].1,
                ) && self.groups_view()[i as int].0 == group_id@,
                None => lookup(self.groups_view(), group_id@) is None,
            },
    {
        let r = first_key(&self.groups, group_id);
        proof {
            let t = self.groups_view();
            match r {
                Some(i) => {
                    assert forall|j: int| 0 <= j < i implies t[j].0 != t[i as int].0 by {
                        assert(t[j].0 == self.groups@[j].0@);
                    }
                    lemma_lookup_first(t, i as int);
                },
                None => {
                    assert forall|j: int| 0 <= j < t.len() implies t[j].0 != group_id@ by {
                        assert(t[j].0 == self.groups@[j].0@);
                    }
                    lemma_lookup_absent(t, group_id@);
                },
            }
        }
        r
    }
}

// ---------------------------------------------------------------------------
// Which groups an item belongs to, and the sources items contribute
// ---------------------------------------------------------------------------

/// Number of entries of a group listing `item`.
pub open spec fn matching_count(entries: Seq<EntryView>, item: Seq<char>) -> nat
    decreases entries.len(),
{
    if entries.len() == 0 {
        0
    } else {
        matching_count(entries.drop_last(), item) + if entries.last().item_id == item {
            1nat
        } else {
            0nat
        }
    }
}

/// The first entry of a group listing `item`.
pub open spec fn first_match(entries: Seq<EntryView>, item: Seq<char>) -> EntryView
    decreases entries.len(),
{
    if entries.len() == 0 {
        EntryView { item_id: item, item_name: seq![], coverage: CoverageType::Unknown }
    } else if entries[0].item_id == item {
        entries[0]
    } else {
        first_match(entries.drop_first(), item)
    }
}

/// Ids of the groups listing `item`, in group order, once per listing.
pub open spec fn groups_with_item(groups: Seq<(Seq<char>, GroupView)>, item: Seq<char>) -> Seq<Seq<char>>
    decreases groups.len(),
{
    if groups.len() == 0 {
        seq![]
    } else {
        groups_with_item(groups.drop_last(), item) + Seq::new(
            matching_count(groups.last().1.conflicts, item),
            |_k: int| groups.last().0,
        )
    }
}

/// The source an item contributes to a group it is listed in.
pub open spec fn item_source(item: Seq<char>, gid: Seq<char>, g: GroupView) -> SourceView {
    let e = first_match(g.conflicts, item);
    SourceView {
        source_type: "item"@,
        source_id: item,
        source_name: e.item_name,
        group_id: gid,
        coverage: e.coverage,
        weight: 100,
    }
}

/// Sources an item contributes: one per listing, in group order.
pub open spec fn sources_of_item(groups: Seq<(Seq<char>, GroupView)>, item: Seq<char>) -> Seq<SourceView>
    decreases groups.len(),
{
    if groups.len() == 0 {
        seq![]
    } else {
        sources_of_item(groups.drop_last(), item) + Seq::new(
            matching_count(groups.last().1.conflicts, item),
            |_k: int| item_source(item, groups.last().0, groups.last().1),
        )
    }
}

/// Sources contributed by a list of items, item by item.
pub open spec fn sources_of_items(groups: Seq<(Seq<char>, GroupView)>, items: Seq<Seq<char>>) -> Seq<SourceView>
    decreases items.len(),
{
    if items.len() == 0 {
        seq![]
    } else {
        sources_of_items(groups, items.drop_last()) + sources_of_item(groups, items.last())
    }
}

/// First group id of `ga` that also occurs in `gb`.
pub open spec fn first_shared(ga: Seq<Seq<char>>, gb: Seq<Seq<char>>) -> Option<Seq<char>>
    decreases ga.len(),
{
    if ga.len() == 0 {
        None
    } else if gb.contains(ga[0]) {
        Some(ga[0])
    } else {
        first_shared(ga.drop_first(), gb)
    }
}

// ---------------------------------------------------------------------------
// Warnings
// ---------------------------------------------------------------------------

/// Number of sources of group `gid`.
pub open spec fn count_group(s: Seq<SourceView>, gid: Seq<char>) -> nat
    decreases s.len(),
{
    if s.len() == 0 {
        0
    } else {
        count_group(s.drop_last(), gid) + if s.last().group_id == gid {
            1nat
        } else {
            0nat
        }
    }
}

/// Some source of group `gid` has coverage `c`.
pub open spec fn has_coverage(s: Seq<SourceView>, gid: Seq<char>, c: CoverageType) -> bool {
    exists|i: int| 0 <= i < s.len() && (#[trigger] s[i]).group_id == gid && s[i].coverage == c
}

/// Number of different coverages among the sources of group `gid`.
pub open spec fn coverage_kinds(s: Seq<SourceView>, gid: Seq<char>) -> int {
    (if has_coverage(s, gid, CoverageType::SingleTarget) {
        1int
    } else {
        0int
    }) + (if has_coverage(s, gid, CoverageType::SingleTargetSpell) {
        1int
    } else {
        0int
    }) + (if has_coverage(s, gid, CoverageType::AoeAura) {
        1int
    } else {
        0int
    }) + (if has_coverage(s, gid, CoverageType::AoeSpell) {
        1int
    } else {
        0int
    }) + (if has_coverage(s, gid, CoverageType::AttackTrigger) {
        1int
    } else {
        0int
    }) + (if has_coverage(s, gid, CoverageType::FlatRegen) {
        1int
    } else {
        0int
    }) + (if has_coverage(s, gid, CoverageType::TimeBased) {
        1int
    } else {
        0int
    }) + (if has_coverage(s, gid, CoverageType::Unknown) {
        1int
    } else {
        0int
    })
}

/// `type:name` of a source.
pub open spec fn source_label(x: SourceView) -> Seq<char> {
    x.source_type + ":"@ + x.source_name
}

/// Labels of the sources of group `gid`, in order.
pub open spec fn group_labels(s: Seq<SourceView>, gid: Seq<char>) -> Seq<Seq<char>>
    decreases s.len(),
{
    if s.len() == 0 {
        seq![]
    } else {
        let p = group_labels(s.drop_last(), gid);
        if s.last().group_id == gid {
            p.push(source_label(s.last()))
        } else {
            p
        }
    }
}

/// Percent of value kept with `count` sources: from the configured values
/// (the `count`-th, else the last, else 100), or from the group's policy.
pub open spec fn retained_value(values: Option<Seq<i32>>, g: GroupView, count: nat) -> int {
    match values {
        Some(v) => {
            let k = if count > 0 {
                count - 1
            } else {
                0
            };
            if k < v.len() {
                v[k] as int
            } else if v.len() > 0 {
                v.last() as int
            } else {
                100
            }
        },
        None => if count <= 1 {
            g.policy.first_source as int
        } else if count == 2 {
            g.policy.second_source as int
        } else {
            g.policy.third_plus_source as int
        },
    }
}

/// Penalty before matchup relief: the value lost, cut to three fifths (toward
/// zero) when the sources cover the effect in different ways.
pub open spec fn base_penalty(values: Option<Seq<i32>>, g: GroupView, count: nat, diverse: bool) -> int {
    let p = -(100 - retained_value(values, g, count));
    if diverse {
        div10_toward_zero(p * 6)
    } else {
        p
    }
}

/// Relief a configured modifier grants group `gid` when its condition holds.
pub open spec fn modifier_relief(
    mods: Seq<(Seq<char>, ModifierView)>,
    active: bool,
    key: Seq<char>,
    gid: Seq<char>,
) -> int {
    if active {
        match lookup(mods, key) {
            Some(m) => if m.groups.contains(gid) {
                m.penalty_relief as int
            } else {
                0
            },
            None => 0,
        }
    } else {
        0
    }
}

/// Relief from the configured modifiers of every matchup condition that holds.
pub open spec fn configured_relief(
    mods: Seq<(Seq<char>, ModifierView)>,
    gid: Seq<char>,
    env: ConflictEnvironment,
) -> int {
    modifier_relief(mods, env.opponent_heal_heavy, "opponent_heal_heavy"@, gid) + modifier_relief(
        mods,
        env.opponent_frontline_thick,
        "opponent_frontline_thick"@,
        gid,
    ) + modifier_relief(mods, env.opponent_burst_heavy, "opponent_burst_heavy"@, gid)
        + modifier_relief(mods, env.own_ap_heavy, "own_ap_heavy"@, gid) + modifier_relief(
        mods,
        env.own_ad_heavy,
        "own_ad_heavy"@,
        gid,
    )
}

/// Relief used when no modifiers are configured.
pub open spec fn builtin_relief(gid: Seq<char>, env: ConflictEnvironment) -> int {
    if gid == "anti_heal"@ && env.opponent_heal_heavy {
        10
    } else if gid == "armor_shred"@ && env.own_ad_heavy {
        25
    } else if gid == "armor_shred"@ && env.opponent_frontline_thick {
        10
    } else if gid == "mr_shred"@ && env.own_ap_heavy {
        25
    } else if (gid == "shield_survival"@ || gid == "unique_trigger"@) && env.opponent_burst_heavy {
        15
    } else {
        0
    }
}

/// Penalty after relief, never above zero.
pub open spec fn adjusted_penalty(
    mods: Seq<(Seq<char>, ModifierView)>,
    gid: Seq<char>,
    penalty: int,
    env: ConflictEnvironment,
) -> int {
    min_int(penalty + relief_amount(mods, gid, env), 0)
}

/// Relief group `gid` gets in the matchup: from the configured modifiers when
/// there are any, else the built-in reliefs.
pub open spec fn relief_amount(mods: Seq<(Seq<char>, ModifierView)>, gid: Seq<char>, env: ConflictEnvironment) -> int {
    if mods.len() > 0 {
        configured_relief(mods, gid, env)
    } else {
        builtin_relief(gid, env)
    }
}

pub open spec fn fits_i32(x: int) -> bool {
    i32::MIN <= x <= i32::MAX
}

/// The configured reliefs of the matchup add up within `i32`, in the order
/// they are applied.
pub open spec fn relief_fits(mods: Seq<(Seq<char>, ModifierView)>, gid: Seq<char>, env: ConflictEnvironment) -> bool {
    let a = modifier_relief(mods, env.opponent_heal_heavy, "opponent_heal_heavy"@, gid);
    let b = modifier_relief(mods, env.opponent_frontline_thick, "opponent_frontline_thick"@, gid);
    let c = modifier_relief(mods, env.opponent_burst_heavy, "opponent_burst_heavy"@, gid);
    let d = modifier_relief(mods, env.own_ap_heavy, "own_ap_heavy"@, gid);
    let e = modifier_relief(mods, env.own_ad_heavy, "own_ad_heavy"@, gid);
    &&& fits_i32(a + b)
    &&& fits_i32(a + b + c)
    &&& fits_i32(a + b + c + d)
    &&& fits_i32(a + b + c + d + e)
}

/// The penalty of group `gid` with `count` sources is computed within `i32`:
/// the value lost, the reliefs and the penalty after relief, which stays
/// above `i32::MIN` so that its size can be written.
pub open spec fn penalty_fits(
    values: Option<Seq<i32>>,
    g: GroupView,
    mods: Seq<(Seq<char>, ModifierView)>,
    gid: Seq<char>,
    count: nat,
    diverse: bool,
    env: ConflictEnvironment,
) -> bool {
    &&& 100 - retained_value(values, g, count) <= i32::MAX
    &&& (mods.len() > 0 ==> relief_fits(mods, gid, env))
    &&& i32::MIN < base_penalty(values, g, count, diverse) + relief_amount(mods, gid, env) <= i32::MAX
}

/// Every warning the sources raise is computed within `i32`.
pub open spec fn warnings_fit(
    groups: Seq<(Seq<char>, GroupView)>,
    values: Option<Seq<i32>>,
    mods: Seq<(Seq<char>, ModifierView)>,
    s: Seq<SourceView>,
    env: ConflictEnvironment,
) -> bool {
    forall|gid: Seq<char>|
        #[trigger] raises_warning(groups, s, gid) ==> penalty_fits(
            values,
            lookup(groups, gid).unwrap(),
            mods,
            gid,
            count_group(s, gid),
            coverage_kinds(s, gid) > 1,
            env,
        )
}

/// What remains of the effect's value, in words.
pub open spec fn remaining_text(kinds: int) -> Seq<char> {
    if kinds > 1 {
        "覆盖方式不同("@ + int_text(kinds) + "种)，可互补"@
    } else {
        "重复效果边际收益下降"@
    }
}

/// The explanation of a warning.
pub open spec fn explanation_text(
    label: Seq<char>,
    count: int,
    penalty: int,
    summary: Seq<char>,
    diverse: bool,
) -> Seq<char> {
    "冲突组["@ + label + "]: 已有 "@ + int_text(count - 1) + " 个"@ + label + "来源，重复收益下降"@
        + int_text(-penalty) + "%，来源: "@ + summary + if diverse {
        "，覆盖方式不同"@
    } else {
        ""@
    }
}

/// Group `gid` is configured and has more than one source.
pub open spec fn raises_warning(
    groups: Seq<(Seq<char>, GroupView)>,
    s: Seq<SourceView>,
    gid: Seq<char>,
) -> bool {
    lookup(groups, gid) is Some && count_group(s, gid) > 1
}

/// The warning for group `gid`.
pub open spec fn warning_for(
    groups: Seq<(Seq<char>, GroupView)>,
    values: Option<Seq<i32>>,
    mods: Seq<(Seq<char>, ModifierView)>,
    s: Seq<SourceView>,
    gid: Seq<char>,
    env: ConflictEnvironment,
) -> WarningView {
    let g = lookup(groups, gid).unwrap();
    let count = count_group(s, gid);
    let kinds = coverage_kinds(s, gid);
    let diverse = kinds > 1;
    let p = adjusted_penalty(mods, gid, base_penalty(values, g, count, diverse), env);
    WarningView {
        group_id: gid,
        group_label: g.label,
        existing_sources: count - 1,
        penalty_score: p,
        remaining_value: remaining_text(kinds),
        explanation: explanation_text(g.label, count as int, p, joined(group_labels(s, gid), "、"@), diverse),
    }
}

/// `w` holds one warning per configured group with more than one source, as
/// `warning_for` gives it, ordered by group id.
pub open spec fn warnings_match(
    groups: Seq<(Seq<char>, GroupView)>,
    values: Option<Seq<i32>>,
    mods: Seq<(Seq<char>, ModifierView)>,
    s: Seq<SourceView>,
    env: ConflictEnvironment,
    w: Seq<WarningView>,
) -> bool {
    &&& forall|i: int, j: int| 0 <= i < j < w.len() ==> text_lt(w[i].group_id, w[j].group_id)
    &&& forall|i: int|
        0 <= i < w.len() ==> raises_warning(groups, s, (#[trigger] w[i]).group_id) && w[i]
            == warning_for(groups, values, mods, s, w[i].group_id, env)
    &&& forall|gid: Seq<char>|
        #[trigger] raises_warning(groups, s, gid) ==> exists|i: int|
            0 <= i < w.len() && (#[trigger] w[i]).group_id == gid
}

proof fn lemma_count_positive(s: Seq<SourceView>, gid: Seq<char>)
    requires
        count_group(s, gid) > 0,
    ensures
        exists|i: int| 0 <= i < s.len() && (#[trigger] s[i]).group_id == gid,
    decreases s.len(),
{
    if s.last().group_id != gid {
        lemma_count_positive(s.drop_last(), gid);
        let i = choose|i: int| 0 <= i < s.drop_last().len() && (#[trigger] s.drop_last()[i]).group_id == gid;
        assert(s[i] == s.drop_last()[i]);
    } else {
        assert(s[s.len() - 1].group_id == gid);
    }
}

// ---------------------------------------------------------------------------
// Exec
// ---------------------------------------------------------------------------

fn clone_warning(w: &ConflictWarning) -> (r: ConflictWarning)
    ensures
        r@ == w@,
{
    ConflictWarning {
        group_id: w.group_id.clone(),
        group_label: w.group_label.clone(),
        existing_sources: w.existing_sources,
        penalty_score: w.penalty_score,
        remaining_value: w.remaining_value.clone(),
        explanation: w.explanation.clone(),
    }
}

fn source_label_text(x: &EffectSource) -> (r: String)
    ensures
        r@ == source_label(x@),
{
    let mut r = cat(x.source_type.as_str(), ":");
    push_str(&mut r, x.source_name.as_str());
    r
}

/// Count, coverage kinds and labels of the sources of one group.
pub(crate) fn tally_group(sources: &[EffectSource], gid: &str) -> (r: (usize, i32, Vec<String>))
    ensures
        r.0 == count_group(seq_views(sources@), gid@),
        r.1 == coverage_kinds(seq_views(sources@), gid@),
        views(r.2@) == group_labels(seq_views(sources@), gid@),
{
    let ghost sv = seq_views(sources@);
    let mut count: usize = 0;
    let mut st = false;
    let mut sts = false;
    let mut aoe = false;
    let mut aoes = false;
    let mut atk = false;
    let mut flat = false;
    let mut timed = false;
    let mut unk = false;
    let mut labels: Vec<String> = Vec::new();
    let mut i: usize = 0;
    while i < sources.len()
        invariant
            sv == seq_views(sources@),
            i <= sv.len(),
            count <= i,
            count == count_group(sv.subrange(0, i as int), gid@),
            views(labels@) == group_labels(sv.subrange(0, i as int), gid@),
            st == has_coverage(sv.subrange(0, i as int), gid@, CoverageType::SingleTarget),
            sts == has_coverage(sv.subrange(0, i as int), gid@, CoverageType::SingleTargetSpell),
            aoe == has_coverage(sv.subrange(0, i as int), gid@, CoverageType::AoeAura),
            aoes == has_coverage(sv.subrange(0, i as int), gid@, CoverageType::AoeSpell),
            atk == has_coverage(sv.subrange(0, i as int), gid@, CoverageType::AttackTrigger),
            flat == has_coverage(sv.subrange(0, i as int), gid@, CoverageType::FlatRegen),
            timed == has_coverage(sv.subrange(0, i as int), gid@, CoverageType::TimeBased),
            unk == has_coverage(sv.subrange(0, i as int), gid@, CoverageType::Unknown),
        decreases sv.len() - i,
    {
        let ghost pre = sv.subrange(0, i as int);
        let ghost nxt = sv.subrange(0, i + 1);
        assert(nxt.drop_last() =~= pre);
        assert(nxt.last() == sources@[i as int]@);
        let x = &sources[i];
        if str_eq(x.group_id.as_str(), gid) {
            count = count + 1;
            let l = source_label_text(x);
            let ghost before = labels@;
            labels.push(l);
            assert(views(labels@) =~= views(before).push(l@));
            match x.coverage {
                CoverageType::SingleTarget => { st = true; },
                CoverageType::SingleTargetSpell => { sts = true; },
                CoverageType::AoeAura => { aoe = true; },
                CoverageType::AoeSpell => { aoes = true; },
                CoverageType::AttackTrigger => { atk = true; },
                CoverageType::FlatRegen => { flat = true; },
                CoverageType::TimeBased => { timed = true; },
                CoverageType::Unknown => { unk = true; },
            }
        }
        proof {
            assert forall|c: CoverageType| has_coverage(nxt, gid@, c) <==> (has_coverage(pre, gid@, c)
                || (nxt[i as int].group_id == gid@ && nxt[i as int].coverage == c)) by {
                if has_coverage(nxt, gid@, c) {
                    let k = choose|k: int| 0 <= k < nxt.len() && (#[trigger] nxt[k]).group_id == gid@ && nxt[k].coverage == c;
                    if k < i {
                        assert(pre[k] == nxt[k]);
                    }
                }
                if has_coverage(pre, gid@, c) {
                    let k = choose|k: int| 0 <= k < pre.len() && (#[trigger] pre[k]).group_id == gid@ && pre[k].coverage == c;
                    assert(nxt[k] == pre[k]);
                }
            }
        }
        i = i + 1;
    }
    assert(sv.subrange(0, i as int) =~= sv);
    let kinds: i32 = (if st { 1i32 } else { 0i32 }) + (if sts { 1i32 } else { 0i32 }) + (if aoe {
        1i32
    } else {
        0i32
    }) + (if aoes { 1i32 } else { 0i32 }) + (if atk { 1i32 } else { 0i32 }) + (if flat {
        1i32
    } else {
        0i32
    }) + (if timed { 1i32 } else { 0i32 }) + (if unk { 1i32 } else { 0i32 });
    (count, kinds, labels)
}

/// Group ids of the sources, in order.
pub open spec fn gid_list(s: Seq<SourceView>) -> Seq<Seq<char>> {
    s.map_values(|x: SourceView| x.group_id)
}

/// Distinct group ids of the sources, in order of first appearance.
pub fn distinct_group_ids(sources: &[EffectSource]) -> (ids: Vec<String>)
    ensures
        views(ids@) == first_occurrences(gid_list(seq_views(sources@))),
        ids@.len() <= sources@.len(),
        distinct_texts(views(ids@)),
        forall|k: int| 0 <= k < ids@.len() ==> gid_list(seq_views(sources@)).contains(#[trigger] views(ids@)[k]),
        forall|i: int|
            0 <= i < sources@.len() ==> views(ids@).contains(#[trigger] gid_list(seq_views(sources@))[i]),
{
    let ghost gl = gid_list(seq_views(sources@));
    let mut ids: Vec<String> = Vec::new();
    let mut i: usize = 0;
    while i < sources.len()
        invariant
            gl == gid_list(seq_views(sources@)),
            gl.len() == sources@.len(),
            i <= gl.len(),
            ids@.len() <= i,
            views(ids@) == first_occurrences(gl.subrange(0, i as int)),
            distinct_texts(views(ids@)),
            forall|k: int| 0 <= k < ids@.len() ==> gl.contains(#[trigger] views(ids@)[k]),
            forall|j: int| 0 <= j < i ==> views(ids@).contains(#[trigger] gl[j]),
        decreases gl.len() - i,
    {
        assert(gl[i as int] == sources@[i as int].group_id@);
        assert(gl.subrange(0, i + 1).drop_last() =~= gl.subrange(0, i as int));
        if !list_has(&ids, sources[i].group_id.as_str()) {
            let g = sources[i].group_id.clone();
            let ghost before = ids@;
            ids.push(g);
            assert(views(ids@) =~= views(before).push(g@));
            assert(views(ids@)[before.len() as int] == gl[i as int]);
            assert forall|j: int| 0 <= j <= i implies views(ids@).contains(#[trigger] gl[j]) by {
                if j < i {
                    let k = choose|k: int| 0 <= k < views(before).len() && views(before)[k] == gl[j];
                    assert(views(ids@)[k] == views(before)[k]);
                } else {
                    assert(views(ids@)[before.len() as int] == gl[j]);
                }
            }
            assert forall|k: int| 0 <= k < ids@.len() implies gl.contains(#[trigger] views(ids@)[k]) by {
                if k < before.len() {
                    assert(views(ids@)[k] == views(before)[k]);
                } else {
                    assert(gl[i as int] == views(ids@)[k]);
                }
            }
        }
        i = i + 1;
    }
    assert(gl.subrange(0, i as int) =~= gl);
    ids
}

impl ItemConflictScorer {
    fn relief_of(&self, key: &str, gid: &str) -> (r: i32)
        requires
            self.well_formed(),
        ensures
            r == modifier_relief(self.modifiers_view(), true, key@, gid@),
    {
        let t = &self.environment_modifiers;
        let ghost tv = self.modifiers_view();
        match first_key(t, key) {
            None => {
                proof {
                    assert forall|j: int| 0 <= j < tv.len() implies tv[j].0 != key@ by {
                        assert(tv[j].0 == t@[j].0@);
                    }
                    lemma_lookup_absent(tv, key@);
                }
                0
            },
            Some(i) => {
                proof {
                    assert forall|j: int| 0 <= j < i implies tv[j].0 != tv[i as int].0 by {
                        assert(tv[j].0 == t@[j].0@);
                    }
                    lemma_lookup_first(tv, i as int);
                    assert(tv[i as int].1 == t@[i as int].1@);
                }
                if list_has(&t[i].1.groups, gid) {
                    t[i].1.penalty_relief
                } else {
                    0
                }
            },
        }
    }

    fn adjust_for_environment(&self, gid: &str, penalty: i32, env: &ConflictEnvironment) -> (r: i32)
        requires
            self.well_formed(),
            self.modifiers_view().len() > 0 ==> relief_fits(self.modifiers_view(), gid@, *env),
            i32::MIN < penalty + relief_amount(self.modifiers_view(), gid@, *env) <= i32::MAX,
        ensures
            r == adjusted_penalty(self.modifiers_view(), gid@, penalty as int, *env),
            i32::MIN < r <= 0,
    {
        let relief: i32 = if self.environment_modifiers.len() > 0 {
            let a = if env.opponent_heal_heavy { self.relief_of("opponent_heal_heavy", gid) } else { 0 };
            let b = if env.opponent_frontline_thick { self.relief_of("opponent_frontline_thick", gid) } else { 0 };
            let c = if env.opponent_burst_heavy { self.relief_of("opponent_burst_heavy", gid) } else { 0 };
            let d = if env.own_ap_heavy { self.relief_of("own_ap_heavy", gid) } else { 0 };
            let e = if env.own_ad_heavy { self.relief_of("own_ad_heavy", gid) } else { 0 };
            a + b + c + d + e
        } else if str_eq(gid, "anti_heal") && env.opponent_heal_heavy {
            10
        } else if str_eq(gid, "armor_shred") && env.own_ad_heavy {
            25
        } else if str_eq(gid, "armor_shred") && env.opponent_frontline_thick {
            10
        } else if str_eq(gid, "mr_shred") && env.own_ap_heavy {
            25
        } else if (str_eq(gid, "shield_survival") || str_eq(gid, "unique_trigger")) && env.opponent_burst_heavy {
            15
        } else {
            0
        };
        let total = penalty + relief;
        if total < 0 {
            total
        } else {
            0
        }
    }

    fn retained(&self, gi: usize, count: usize) -> (r: i32)
        requires
            self.well_formed(),
            gi < self.groups@.len(),
        ensures
            r == retained_value(self.values_view(), self.groups_view()[gi as int].1, count as nat),
    {
        match &self.configured_value_per_source {
            Some(v) => {
                let k = if count > 0 { count - 1 } else { 0 };
                if k < v.len() {
                    v[k]
                } else if v.len() > 0 {
                    v[v.len() - 1]
                } else {
                    100
                }
            },
            None => {
                let policy = self.groups[gi].1.stacking_policy;
                if count <= 1 {
                    policy.first_source
                } else if count == 2 {
                    policy.second_source
                } else {
                    policy.third_plus_source
                }
            },
        }
    }

    fn build_warning(
        &self,
        gi: usize,
        gid: &str,
        count: usize,
        kinds: i32,
        labels: &Vec<String>,
        env: &ConflictEnvironment,
    ) -> (w: ConflictWarning)
        requires
            self.well_formed(),
            gi < self.groups@.len(),
            self.groups_view()[gi as int].0 == gid@,
            lookup(self.groups_view(), gid@) == Some(self.groups_view()[gi as int].1),
            count > 1,
            0 <= kinds <= 8,
            penalty_fits(
                self.values_view(),
                self.groups_view()[gi as int].1,
                self.modifiers_view(),
                gid@,
                count as nat,
                kinds > 1,
                *env,
            ),
        ensures
            w@ == ({
                let g = self.groups_view()[gi as int].1;
                let diverse = kinds > 1;
                let p = adjusted_penalty(
                    self.modifiers_view(),
                    gid@,
                    base_penalty(self.values_view(), g, count as nat, diverse),
                    *env,
                );
                WarningView {
                    group_id: gid@,
                    group_label: g.label,
                    existing_sources: count - 1,
                    penalty_score: p,
                    remaining_value: remaining_text(kinds as int),
                    explanation: explanation_text(g.label, count as int, p, joined(views(labels@), "、"@), diverse),
                }
            }),
            i32::MIN < w.penalty_score <= 0,
    {
        let group = &self.groups[gi].1;
        let retained = self.retained(gi, count);
        let mut penalty: i32 = -(100 - retained);
        let diverse = kinds > 1;
        if diverse {
            penalty = crate::num::three_fifths(penalty);
        }
        let penalty = self.adjust_for_environment(gid, penalty, env);
        let remaining_value = if diverse {
            let mut t = cat("覆盖方式不同(", int_to_text(kinds as i64).as_str());
            push_str(&mut t, "种)，可互补");
            t
        } else {
            owned("重复效果边际收益下降")
        };
        let summary = join(labels, "、");
        let mut explanation = cat("冲突组[", group.label.as_str());
        push_str(&mut explanation, "]: 已有 ");
        push_str(&mut explanation, crate::text::nat_to_text((count - 1) as u64).as_str());
        push_str(&mut explanation, " 个");
        push_str(&mut explanation, group.label.as_str());
        push_str(&mut explanation, "来源，重复收益下降");
        push_str(&mut explanation, int_to_text(-(penalty as i64)).as_str());
        push_str(&mut explanation, "%，来源: ");
        push_str(&mut explanation, summary.as_str());
        if diverse {
            push_str(&mut explanation, "，覆盖方式不同");
        } else {
            push_str(&mut explanation, "");
        }
        ConflictWarning {
            group_id: owned(gid),
            group_label: group.label.clone(),
            existing_sources: count - 1,
            penalty_score: penalty,
            remaining_value,
            explanation,
        }
    }
}

proof fn lemma_first_match(entries: Seq<EntryView>, item: Seq<char>, f: int)
    requires
        0 <= f < entries.len(),
        entries[f].item_id == item,
        forall|j: int| 0 <= j < f ==> (#[trigger] entries[j]).item_id != item,
    ensures
        first_match(entries, item) == entries[f],
    decreases f,
{
    if f > 0 {
        let rest = entries.drop_first();
        assert forall|j: int| 0 <= j < f - 1 implies (#[trigger] rest[j]).item_id != item by {
            assert(rest[j] == entries[j + 1]);
        }
        assert(rest[f - 1] == entries[f]);
        lemma_first_match(rest, item, f - 1);
    }
}

/// Number of entries listing `item`, and the position of the first.
fn count_and_first(entries: &Vec<ConflictEntry>, item: &str) -> (r: (usize, usize))
    ensures
        r.0 == matching_count(seq_views(entries@), item@),
        r.0 > 0 ==> r.1 < entries@.len() && first_match(seq_views(entries@), item@) == entries@[r.1 as int]@,
{
    let ghost ev = seq_views(entries@);
    let mut count: usize = 0;
    let mut first: usize = 0;
    let mut i: usize = 0;
    while i < entries.len()
        invariant
            ev == seq_views(entries@),
            i <= ev.len(),
            count <= i,
            count == matching_count(ev.subrange(0, i as int), item@),
            count == 0 ==> forall|j: int| 0 <= j < i ==> (#[trigger] ev[j]).item_id != item@,
            count > 0 ==> first < i && ev[first as int].item_id == item@ && forall|j: int|
                0 <= j < first ==> (#[trigger] ev[j]).item_id != item@,
        decreases ev.len() - i,
    {
        let ghost nxt = ev.subrange(0, i + 1);
        assert(nxt.drop_last() =~= ev.subrange(0, i as int));
        assert(nxt.last() == entries@[i as int]@);
        if str_eq(entries[i].item_id.as_str(), item) {
            if count == 0 {
                first = i;
            }
            count = count + 1;
        }
        i = i + 1;
    }
    assert(ev.subrange(0, i as int) =~= ev);
    if count > 0 {
        proof {
            lemma_first_match(ev, item@, first as int);
        }
    }
    (count, first)
}

fn make_item_source(item: &str, gid: &String, e: &ConflictEntry) -> (r: EffectSource)
    ensures
        r@ == (SourceView {
            source_type: "item"@,
            source_id: item@,
            source_name: e.item_name@,
            group_id: gid@,
            coverage: e.coverage,
            weight: 100,
        }),
{
    EffectSource {
        source_type: owned("item"),
        source_id: owned(item),
        source_name: e.item_name.clone(),
        group_id: gid.clone(),
        coverage: e.coverage,
        weight: 100,
    }
}

/// Views of a list of group references.
pub open spec fn ref_views(r: Seq<&ItemConflictGroup>) -> Seq<GroupView> {
    r.map_values(|g: &ItemConflictGroup| g@)
}

/// The groups listing `item`, in group order, once per listing.
pub open spec fn groups_listing(groups: Seq<(Seq<char>, GroupView)>, item: Seq<char>) -> Seq<GroupView>
    decreases groups.len(),
{
    if groups.len() == 0 {
        seq![]
    } else {
        groups_listing(groups.drop_last(), item) + Seq::new(
            matching_count(groups.last().1.conflicts, item),
            |_k: int| groups.last().1,
        )
    }
}

impl ItemConflictScorer {
    /// Sources one item contributes.
    fn item_sources(&self, item: &str) -> (r: Vec<EffectSource>)
        ensures
            seq_views(r@) == sources_of_item(self.groups_view(), item@),
    {
        let ghost gv = self.groups_view();
        let mut r: Vec<EffectSource> = Vec::new();
        let mut gi: usize = 0;
        while gi < self.groups.len()
            invariant
                gv == self.groups_view(),
                gi <= gv.len(),
                seq_views(r@) == sources_of_item(gv.subrange(0, gi as int), item@),
            decreases gv.len() - gi,
        {
            let ghost pre = gv.subrange(0, gi as int);
            let ghost nxt = gv.subrange(0, gi + 1);
            assert(nxt.drop_last() =~= pre);
            assert(nxt.last() == gv[gi as int]);
            let (c, f) = count_and_first(&self.groups[gi].1.conflicts, item);
            let ghost start = seq_views(r@);
            let ghost src = item_source(item@, gv[gi as int].0, gv[gi as int].1);
            let mut t: usize = 0;
            while t < c
                invariant
                    gv == self.groups_view(),
                    gi < gv.len(),
                    t <= c,
                    c == matching_count(gv[gi as int].1.conflicts, item@),
                    c > 0 ==> f < self.groups@[gi as int].1.conflicts@.len() && first_match(
                        gv[gi as int].1.conflicts,
                        item@,
                    ) == self.groups@[gi as int].1.conflicts@[f as int]@,
                    src == item_source(item@, gv[gi as int].0, gv[gi as int].1),
                    seq_views(r@) == start + Seq::new(t as nat, |_k: int| src),
                decreases c - t,
            {
                assert(gv[gi as int].1.conflicts == seq_views(self.groups@[gi as int].1.conflicts@));
                let x = make_item_source(item, &self.groups[gi].0, &self.groups[gi].1.conflicts[f]);
                let ghost before = r@;
                r.push(x);
                assert(seq_views(r@) =~= seq_views(before).push(x@));
                t = t + 1;
                assert(seq_views(r@) =~= start + Seq::new(t as nat, |_k: int| src));
            }
            assert(seq_views(r@) =~= sources_of_item(nxt, item@));
            gi = gi + 1;
        }
        assert(gv.subrange(0, gi as int) =~= gv);
        r
    }

    /// Sources a list of items contributes.
    fn sources_from_item_ids(&self, item_ids: &[String]) -> (r: Vec<EffectSource>)
        ensures
            seq_views(r@) == sources_of_items(self.groups_view(), views(item_ids@)),
    {
        let ghost iv = views(item_ids@);
        let mut r: Vec<EffectSource> = Vec::new();
        let mut i: usize = 0;
        while i < item_ids.len()
            invariant
                iv == views(item_ids@),
                i <= iv.len(),
                seq_views(r@) == sources_of_items(self.groups_view(), iv.subrange(0, i as int)),
            decreases iv.len() - i,
        {
            let ghost nxt = iv.subrange(0, i + 1);
            assert(nxt.drop_last() =~= iv.subrange(0, i as int));
            assert(nxt.last() == item_ids@[i as int]@);
            let mut part = self.item_sources(item_ids[i].as_str());
            let ghost before = r@;
            let ghost pv = part@;
            r.append(&mut part);
            assert(r@ == before + pv);
            assert(seq_views(r@) =~= seq_views(before) + seq_views(pv));
            i = i + 1;
        }
        assert(iv.subrange(0, i as int) =~= iv);
        r
    }

    /// Ids of the groups listing `item`.
    fn group_ids_of(&self, item: &str) -> (r: Vec<String>)
        ensures
            views(r@) == groups_with_item(self.groups_view(), item@),
    {
        let ghost gv = self.groups_view();
        let mut r: Vec<String> = Vec::new();
        let mut gi: usize = 0;
        while gi < self.groups.len()
            invariant
                gv == self.groups_view(),
                gi <= gv.len(),
                views(r@) == groups_with_item(gv.subrange(0, gi as int), item@),
            decreases gv.len() - gi,
        {
            let ghost nxt = gv.subrange(0, gi + 1);
            assert(nxt.drop_last() =~= gv.subrange(0, gi as int));
            assert(nxt.last() == gv[gi as int]);
            let (c, _f) = count_and_first(&self.groups[gi].1.conflicts, item);
            let ghost start = views(r@);
            let mut t: usize = 0;
            while t < c
                invariant
                    gv == self.groups_view(),
                    gi < gv.len(),
                    t <= c,
                    views(r@) == start + Seq::new(t as nat, |_k: int| gv[gi as int].0),
                decreases c - t,
            {
                let g = self.groups[gi].0.clone();
                let ghost before = r@;
                r.push(g);
                assert(views(r@) =~= views(before).push(g@));
                t = t + 1;
                assert(views(r@) =~= start + Seq::new(t as nat, |_k: int| gv[gi as int].0));
            }
            assert(views(r@) =~= groups_with_item(nxt, item@));
            gi = gi + 1;
        }
        assert(gv.subrange(0, gi as int) =~= gv);
        r
    }

    /// The conflict groups an item belongs to (once per listing, in group order).
    pub fn get_conflict_groups(&self, item_id: &str) -> (r: Vec<&ItemConflictGroup>)
        ensures
            ref_views(r@) == groups_listing(self.groups_view(), item_id@),
    {
        let ghost gv = self.groups_view();
        let mut r: Vec<&ItemConflictGroup> = Vec::new();
        let mut gi: usize = 0;
        while gi < self.groups.len()
            invariant
                gv == self.groups_view(),
                gi <= gv.len(),
                ref_views(r@) == groups_listing(gv.subrange(0, gi as int), item_id@),
            decreases gv.len() - gi,
        {
            let ghost nxt = gv.subrange(0, gi + 1);
            assert(nxt.drop_last() =~= gv.subrange(0, gi as int));
            assert(nxt.last() == gv[gi as int]);
            let (c, _f) = count_and_first(&self.groups[gi].1.conflicts, item_id);
            let ghost start = ref_views(r@);
            let mut t: usize = 0;
            while t < c
                invariant
                    gv == self.groups_view(),
                    gi < gv.len(),
                    t <= c,
                    ref_views(r@) == start + Seq::new(t as nat, |_k: int| gv[gi as int].1),
                decreases c - t,
            {
                let g = &self.groups[gi].1;
                let ghost before = r@;
                r.push(g);
                assert(ref_views(r@) =~= ref_views(before).push(g@));
                t = t + 1;
                assert(ref_views(r@) =~= start + Seq::new(t as nat, |_k: int| gv[gi as int].1));
            }
            assert(ref_views(r@) =~= groups_listing(nxt, item_id@));
            gi = gi + 1;
        }
        assert(gv.subrange(0, gi as int) =~= gv);
        r
    }

    /// The first group (in group order) that lists both items, if any.
    pub fn are_conflicting(&self, item_a: &str, item_b: &str) -> (r: Option<String>)
        ensures
            match r {
                Some(g) => first_shared(
                    groups_with_item(self.groups_view(), item_a@),
                    groups_with_item(self.groups_view(), item_b@),
                ) == Some(g@),
                None => first_shared(
                    groups_with_item(self.groups_view(), item_a@),
                    groups_with_item(self.groups_view(), item_b@),
                ) is None,
            },
    {
        let ga = self.group_ids_of(item_a);
        let gb = self.group_ids_of(item_b);
        let ghost av = views(ga@);
        let ghost bv = views(gb@);
        let mut k: usize = 0;
        assert(av.skip(0) =~= av);
        while k < ga.len()
            invariant
                av == views(ga@),
                bv == views(gb@),
                av == groups_with_item(self.groups_view(), item_a@),
                bv == groups_with_item(self.groups_view(), item_b@),
                k <= av.len(),
                first_shared(av, bv) == first_shared(av.skip(k as int), bv),
            decreases av.len() - k,
        {
            assert(av.skip(k as int)[0] == ga@[k as int]@);
            if list_has(&gb, ga[k].as_str()) {
                assert(bv.contains(av.skip(k as int)[0]));
                assert(first_shared(av.skip(k as int), bv) == Some(av.skip(k as int)[0]));
                return Some(owned(ga[k].as_str()));
            }
            assert(av.skip(k as int).drop_first() =~= av.skip(k + 1));
            k = k + 1;
        }
        assert(av.skip(k as int).len() == 0);
        None
    }
}

proof fn lemma_item_sources_are_items(groups: Seq<(Seq<char>, GroupView)>, item: Seq<char>, t: int)
    requires
        0 <= t < sources_of_item(groups, item).len(),
    ensures
        sources_of_item(groups, item)[t].source_type == "item"@,
        sources_of_item(groups, item)[t].weight == 100,
        sources_of_item(groups, item)[t].source_id == item,
    decreases groups.len(),
{
    let prev = sources_of_item(groups.drop_last(), item);
    if t < prev.len() {
        lemma_item_sources_are_items(groups.drop_last(), item, t);
    }
}

/// Distinct texts all found in `b` are no more than `b` holds.
proof fn lemma_distinct_within(a: Seq<Seq<char>>, b: Seq<Seq<char>>)
    requires
        distinct_texts(a),
        forall|j: int| 0 <= j < a.len() ==> b.contains(a[j]),
    ensures
        a.len() <= b.len(),
{
    assert(a.no_duplicates());
    a.unique_seq_to_set();
    b.lemma_cardinality_of_set();
    assert(a.to_set().subset_of(b.to_set())) by {
        assert forall|x: Seq<char>| a.to_set().contains(x) implies b.to_set().contains(x) by {
            let j = choose|j: int| 0 <= j < a.len() && a[j] == x;
        }
    }
    vstd::set_lib::lemma_len_subset(a.to_set(), b.to_set());
}

/// The matchup with no condition set.
pub open spec fn calm_environment() -> ConflictEnvironment {
    ConflictEnvironment {
        opponent_heal_heavy: false,
        opponent_frontline_thick: false,
        opponent_burst_heavy: false,
        own_ap_heavy: false,
        own_ad_heavy: false,
    }
}

impl ItemConflictScorer {
    /// The warning for group `gid`, when it raises one.
    fn group_warning(&self, sources: &[EffectSource], gid: &str, env: &ConflictEnvironment) -> (r: Option<
        ConflictWarning,
    >)
        requires
            self.well_formed(),
            raises_warning(self.groups_view(), seq_views(sources@), gid@) ==> penalty_fits(
                self.values_view(),
                lookup(self.groups_view(), gid@).unwrap(),
                self.modifiers_view(),
                gid@,
                count_group(seq_views(sources@), gid@),
                coverage_kinds(seq_views(sources@), gid@) > 1,
                *env,
            ),
        ensures
            match r {
                Some(w) => raises_warning(self.groups_view(), seq_views(sources@), gid@) && w@
                    == warning_for(
                    self.groups_view(),
                    self.values_view(),
                    self.modifiers_view(),
                    seq_views(sources@),
                    gid@,
                    *env,
                ),
                None => !raises_warning(self.groups_view(), seq_views(sources@), gid@),
            },
            r matches Some(w) ==> i32::MIN < w.penalty_score <= 0,
    {
        let (count, kinds, labels) = tally_group(sources, gid);
        match self.find_group(gid) {
            Some(gi) => {
                if count > 1 {
                    Some(self.build_warning(gi, gid, count, kinds, &labels, env))
                } else {
                    None
                }
            },
            None => None,
        }
    }

    /// One warning per configured group with more than one source, ordered by
    /// group id.
    #[verifier::spinoff_prover]
    #[verifier::rlimit(40)]
    fn warnings_from_sources(&self, sources: &[EffectSource], env: &ConflictEnvironment) -> (w: Vec<
        ConflictWarning,
    >)
        requires
            self.well_formed(),
            warnings_fit(self.groups_view(), self.values_view(), self.modifiers_view(), seq_views(sources@), *env),
        ensures
            warnings_match(
                self.groups_view(),
                self.values_view(),
                self.modifiers_view(),
                seq_views(sources@),
                *env,
                seq_views(w@),
            ),
            w@.len() <= sources@.len(),
            w@.len() <= self.groups@.len(),
            forall|i: int| 0 <= i < w@.len() ==> i32::MIN < (#[trigger] w@[i]).penalty_score <= 0,
    {
        let ghost sv = seq_views(sources@);
        let ghost gv = self.groups_view();
        let ghost vv = self.values_view();
        let ghost mv = self.modifiers_view();
        let ids = distinct_group_ids(sources);
        let ghost idv = views(ids@);
        let mut cands: Vec<ConflictWarning> = Vec::new();
        let mut keys: Vec<String> = Vec::new();
        let mut k: usize = 0;
        while k < ids.len()
            invariant
                self.well_formed(),
                warnings_fit(gv, vv, mv, sv, *env),
                sv == seq_views(sources@),
                gv == self.groups_view(),
                vv == self.values_view(),
                mv == self.modifiers_view(),
                idv == views(ids@),
                distinct_texts(idv),
                k <= idv.len(),
                cands@.len() == keys@.len(),
                keys@.len() <= k,
                distinct_texts(views(keys@)),
                forall|j: int| 0 <= j < keys@.len() ==> idv.subrange(0, k as int).contains(#[trigger] views(keys@)[j]),
                forall|j: int|
                    0 <= j < cands@.len() ==> (#[trigger] cands@[j])@.group_id == views(keys@)[j]
                        && raises_warning(gv, sv, views(keys@)[j]) && cands@[j]@ == warning_for(
                        gv,
                        vv,
                        mv,
                        sv,
                        views(keys@)[j],
                        *env,
                    ),
                forall|m: int|
                    0 <= m < k && raises_warning(gv, sv, #[trigger] idv[m]) ==> views(keys@).contains(idv[m]),
                forall|j: int| 0 <= j < cands@.len() ==> i32::MIN < (#[trigger] cands@[j]).penalty_score <= 0,
            decreases idv.len() - k,
        {
            let gid = ids[k].as_str();
            assert(gid@ == idv[k as int]);
            proof {
                if raises_warning(gv, sv, gid@) {
                    assert(raises_warning(gv, sv, gid@));
                }
            }
            let found = self.group_warning(sources, gid, env);
            let ghost kb = views(keys@);
            let ghost cb = cands@;
            proof {
                assert forall|j: int| 0 <= j < kb.len() implies kb[j] != gid@ by {
                    let m = choose|m: int| 0 <= m < k && idv.subrange(0, k as int)[m] == kb[j];
                    assert(idv[m] == kb[j]);
                }
                assert forall|j: int| 0 <= j < kb.len() implies idv.subrange(0, k + 1).contains(
                    #[trigger] kb[j],
                ) by {
                    let m = choose|m: int| 0 <= m < k && idv.subrange(0, k as int)[m] == kb[j];
                    assert(idv.subrange(0, k + 1)[m] == kb[j]);
                }
            }
            match found {
                Some(wv) => {
                    let ghost wvv = wv@;
                    cands.push(wv);
                    keys.push(owned(gid));
                    proof {
                        let ka = views(keys@);
                        assert(ka =~= kb.push(gid@));
                        assert forall|j: int| 0 <= j < ka.len() implies idv.subrange(0, k + 1).contains(
                            #[trigger] ka[j],
                        ) by {
                            if j == kb.len() {
                                assert(idv.subrange(0, k + 1)[k as int] == ka[j]);
                            } else {
                                assert(ka[j] == kb[j]);
                            }
                        }
                        assert forall|j: int| 0 <= j < cands@.len() implies (#[trigger] cands@[j])@.group_id
                            == ka[j] && raises_warning(gv, sv, ka[j]) && cands@[j]@ == warning_for(
                            gv,
                            vv,
                            mv,
                            sv,
                            ka[j],
                            *env,
                        ) by {
                            if j < cb.len() {
                                assert(cands@[j] == cb[j]);
                                assert(ka[j] == kb[j]);
                            } else {
                                assert(cands@[j]@ == wvv);
                                assert(ka[j] == gid@);
                            }
                        }
                        assert forall|m: int|
                            0 <= m < k + 1 && raises_warning(gv, sv, #[trigger] idv[m]) implies ka.contains(
                            idv[m],
                        ) by {
                            if m < k {
                                let j = choose|j: int| 0 <= j < kb.len() && kb[j] == idv[m];
                                assert(ka[j] == kb[j]);
                            } else {
                                assert(ka[kb.len() as int] == idv[m]);
                            }
                        }
                    }
                },
                None => {},
            }
            k = k + 1;
        }
        proof {
            let kv = views(keys@);
            let gk = self.groups_view().map_values(|e: (Seq<char>, GroupView)| e.0);
            assert forall|j: int| 0 <= j < kv.len() implies gk.contains(kv[j]) by {
                assert(cands@[j]@.group_id == kv[j]);
                assert(raises_warning(gv, sv, kv[j]));
                crate::keyed::lemma_lookup_some(gv, kv[j]);
                let q = choose|q: int| 0 <= q < gv.len() && #[trigger] gv[q].0 == kv[j];
                assert(gk[q] == kv[j]);
            }
            lemma_distinct_within(kv, gk);
        }
        let perm = sorting_permutation(&keys);
        let mut out: Vec<ConflictWarning> = Vec::new();
        let mut t: usize = 0;
        while t < perm.len()
            invariant
                is_permutation(perm@, keys@.len()),
                cands@.len() == keys@.len(),
                t <= perm@.len(),
                out@.len() == t,
                forall|q: int| 0 <= q < t ==> (#[trigger] out@[q])@ == cands@[perm@[q] as int]@,
                forall|j: int| 0 <= j < cands@.len() ==> i32::MIN < (#[trigger] cands@[j]).penalty_score <= 0,
            decreases perm@.len() - t,
        {
            let c = clone_warning(&cands[perm[t]]);
            out.push(c);
            t = t + 1;
        }
        proof {
            let ov = seq_views(out@);
            let kv = views(keys@);
            assert forall|i: int| 0 <= i < ov.len() implies ov[i] == cands@[perm@[i] as int]@ by {
                assert(ov[i] == out@[i]@);
            }
            assert forall|i: int, j: int| 0 <= i < j < ov.len() implies text_lt(ov[i].group_id, ov[j].group_id) by {
                assert(ov[i].group_id == kv[perm@[i] as int]);
                assert(ov[j].group_id == kv[perm@[j] as int]);
            }
            assert forall|i: int| 0 <= i < ov.len() implies raises_warning(gv, sv, (#[trigger] ov[i]).group_id)
                && ov[i] == warning_for(gv, vv, mv, sv, ov[i].group_id, *env) by {
                assert(cands@[perm@[i] as int]@.group_id == kv[perm@[i] as int]);
            }
            assert forall|gid: Seq<char>| #[trigger] raises_warning(gv, sv, gid) implies exists|i: int|
                0 <= i < ov.len() && (#[trigger] ov[i]).group_id == gid by {
                lemma_count_positive(sv, gid);
                let si = choose|si: int| 0 <= si < sv.len() && (#[trigger] sv[si]).group_id == gid;
                assert(gid_list(sv)[si] == gid);
                assert(idv.contains(gid_list(seq_views(sources@))[si]));
                let m = choose|m: int| 0 <= m < idv.len() && idv[m] == gid;
                assert(raises_warning(gv, sv, idv[m]));
                let j = choose|j: int| 0 <= j < kv.len() && kv[j] == gid;
                assert(occurs(perm@, j));
                let i = choose|i: int| 0 <= i < perm@.len() && perm@[i] == j;
                assert(ov[i].group_id == gid);
            }
        }
        out
    }

    /// The conflicts among the given items, in the calm matchup.
    pub fn detect_conflicts(&self, item_ids: &[String]) -> (w: Vec<ConflictWarning>)
        requires
            self.well_formed(),
            warnings_fit(
                self.groups_view(),
                self.values_view(),
                self.modifiers_view(),
                sources_of_items(self.groups_view(), views(item_ids@)),
                calm_environment(),
            ),
        ensures
            warnings_match(
                self.groups_view(),
                self.values_view(),
                self.modifiers_view(),
                sources_of_items(self.groups_view(), views(item_ids@)),
                calm_environment(),
                seq_views(w@),
            ),
    {
        let env = ConflictEnvironment {
            opponent_heal_heavy: false,
            opponent_frontline_thick: false,
            opponent_burst_heavy: false,
            own_ap_heavy: false,
            own_ad_heavy: false,
        };
        self.detect_conflicts_with_environment(item_ids, &env)
    }

    /// The conflicts among the given items in the given matchup.
    pub fn detect_conflicts_with_environment(
        &self,
        item_ids: &[String],
        environment: &ConflictEnvironment,
    ) -> (w: Vec<ConflictWarning>)
        requires
            self.well_formed(),
            warnings_fit(
                self.groups_view(),
                self.values_view(),
                self.modifiers_view(),
                sources_of_items(self.groups_view(), views(item_ids@)),
                *environment,
            ),
        ensures
            warnings_match(
                self.groups_view(),
                self.values_view(),
                self.modifiers_view(),
                sources_of_items(self.groups_view(), views(item_ids@)),
                *environment,
                seq_views(w@),
            ),
            w@.len() <= self.groups@.len(),
            forall|i: int| 0 <= i < w@.len() ==> i32::MIN < (#[trigger] w@[i]).penalty_score <= 0,
    {
        let sources = self.sources_from_item_ids(item_ids);
        self.warnings_from_sources(sources.as_slice(), environment)
    }
}

// ---------------------------------------------------------------------------
// Team report
// ---------------------------------------------------------------------------

pub struct ReportView {
    pub item_conflicts: Seq<(Seq<char>, Seq<WarningView>)>,
    pub covered_groups: Seq<Seq<char>>,
    pub uncovered_groups: Seq<Seq<char>>,
    pub total_penalty: int,
    pub coverage_explanation: Seq<char>,
}

impl View for TeamConflictReport {
    type V = ReportView;

    open spec fn view(&self) -> ReportView {
        ReportView {
            item_conflicts: self.item_conflicts@.map_values(
                |e: (String, Vec<ConflictWarning>)| (e.0@, seq_views(e.1@)),
            ),
            covered_groups: views(self.covered_groups@),
            uncovered_groups: views(self.uncovered_groups@),
            total_penalty: self.total_penalty as int,
            coverage_explanation: self.coverage_explanation@,
        }
    }
}

/// For one warning, each item source of its group as `(item id, warning)`, in
/// source order.
pub open spec fn item_hits(s: Seq<SourceView>, x: WarningView) -> Seq<(Seq<char>, WarningView)>
    decreases s.len(),
{
    if s.len() == 0 {
        seq![]
    } else {
        let p = item_hits(s.drop_last(), x);
        if s.last().source_type == "item"@ && s.last().group_id == x.group_id {
            p.push((s.last().source_id, x))
        } else {
            p
        }
    }
}

/// The item hits of every warning, warning by warning.
pub open spec fn all_item_hits(s: Seq<SourceView>, w: Seq<WarningView>) -> Seq<(Seq<char>, WarningView)>
    decreases w.len(),
{
    if w.len() == 0 {
        seq![]
    } else {
        all_item_hits(s, w.drop_last()) + item_hits(s, w.last())
    }
}

/// The texts of `k` without repeats, in order of first occurrence.
pub open spec fn first_occurrences(k: Seq<Seq<char>>) -> Seq<Seq<char>>
    decreases k.len(),
{
    if k.len() == 0 {
        seq![]
    } else {
        let p = first_occurrences(k.drop_last());
        if p.contains(k.last()) {
            p
        } else {
            p.push(k.last())
        }
    }
}

/// The warnings hit for item `key`, in order.
pub open spec fn hits_for(h: Seq<(Seq<char>, WarningView)>, key: Seq<char>) -> Seq<WarningView>
    decreases h.len(),
{
    if h.len() == 0 {
        seq![]
    } else {
        let p = hits_for(h.drop_last(), key);
        if h.last().0 == key {
            p.push(h.last().1)
        } else {
            p
        }
    }
}

/// Hits grouped by item: each item once, in order of its first hit, with all
/// its warnings.
pub open spec fn grouped_hits(h: Seq<(Seq<char>, WarningView)>) -> Seq<(Seq<char>, Seq<WarningView>)> {
    first_occurrences(h.map_values(|e: (Seq<char>, WarningView)| e.0)).map_values(
        |k: Seq<char>| (k, hits_for(h, k)),
    )
}

/// Sum of the penalties.
pub open spec fn penalty_sum(w: Seq<WarningView>) -> int
    decreases w.len(),
{
    if w.len() == 0 {
        0
    } else {
        penalty_sum(w.drop_last()) + w.last().penalty_score
    }
}

/// The penalties of the warnings of these sources add up within `i32`.
pub open spec fn penalties_fit(
    groups: Seq<(Seq<char>, GroupView)>,
    values: Option<Seq<i32>>,
    mods: Seq<(Seq<char>, ModifierView)>,
    s: Seq<SourceView>,
    env: ConflictEnvironment,
) -> bool {
    forall|w: Seq<WarningView>| #[trigger] warnings_match(groups, values, mods, s, env, w) ==> penalty_sum(w) >= i32::MIN
}

/// Adding penalties that are never positive only lowers the sum.
proof fn lemma_penalty_prefix(w: Seq<WarningView>, i: int)
    requires
        0 <= i <= w.len(),
        forall|q: int| 0 <= q < w.len() ==> (#[trigger] w[q]).penalty_score <= 0,
    ensures
        penalty_sum(w.subrange(0, i)) >= penalty_sum(w),
        penalty_sum(w.subrange(0, i)) <= 0,
    decreases w.len() - i,
{
    if i < w.len() {
        lemma_penalty_prefix(w, i + 1);
        assert(w.subrange(0, i + 1).drop_last() =~= w.subrange(0, i));
        assert(w.subrange(0, i + 1).last() == w[i]);
        let p = w.subrange(0, i);
        assert forall|q: int| 0 <= q < p.len() implies (#[trigger] p[q]).penalty_score <= 0 by {
            assert(p[q] == w[q]);
        }
        lemma_penalty_nonpositive(p);
    } else {
        assert(w.subrange(0, i) =~= w);
        lemma_penalty_nonpositive(w);
    }
}

proof fn lemma_penalty_nonpositive(w: Seq<WarningView>)
    requires
        forall|q: int| 0 <= q < w.len() ==> (#[trigger] w[q]).penalty_score <= 0,
    ensures
        penalty_sum(w) <= 0,
    decreases w.len(),
{
    if w.len() > 0 {
        lemma_penalty_nonpositive(w.drop_last());
    }
}

/// `label (降权p)` of a warning.
pub open spec fn warning_label(x: WarningView) -> Seq<char> {
    x.group_label + " (降权"@ + int_text(x.penalty_score) + ")"@
}

/// The one-line summary of sources and warnings.
pub open spec fn coverage_explanation_text(s: Seq<SourceView>, w: Seq<WarningView>) -> Seq<char> {
    let sources = joined(s.map_values(|x: SourceView| source_label(x)), "、"@);
    if w.len() == 0 {
        "来源: "@ + sources + " | 无效果冲突"@
    } else {
        "来源: "@ + sources + " | 冲突警告: "@ + joined(
            w.map_values(|x: WarningView| warning_label(x)),
            "; "@,
        )
    }
}

/// Ids of the configured groups.
pub open spec fn group_keys(groups: Seq<(Seq<char>, GroupView)>) -> Seq<Seq<char>> {
    groups.map_values(|e: (Seq<char>, GroupView)| e.0)
}

/// The report on sources `s` whose warnings are `w`.
pub open spec fn report_matches(
    groups: Seq<(Seq<char>, GroupView)>,
    s: Seq<SourceView>,
    w: Seq<WarningView>,
    r: ReportView,
) -> bool {
    &&& r.item_conflicts == grouped_hits(all_item_hits(s, w))
    &&& strictly_sorted(r.covered_groups)
    &&& forall|x: Seq<char>| r.covered_groups.contains(x) <==> gid_list(s).contains(x)
    &&& strictly_sorted(r.uncovered_groups)
    &&& forall|x: Seq<char>|
        r.uncovered_groups.contains(x) <==> (group_keys(groups).contains(x) && !gid_list(s).contains(x))
    &&& r.total_penalty == penalty_sum(w)
    &&& r.coverage_explanation == coverage_explanation_text(s, w)
}

fn clone_warnings(v: &Vec<ConflictWarning>) -> (r: Vec<ConflictWarning>)
    ensures
        seq_views(r@) == seq_views(v@),
{
    let mut r: Vec<ConflictWarning> = Vec::new();
    let mut i: usize = 0;
    while i < v.len()
        invariant
            i <= v@.len(),
            seq_views(r@) == seq_views(v@).subrange(0, i as int),
        decreases v@.len() - i,
    {
        let ghost before = r@;
        let c = clone_warning(&v[i]);
        r.push(c);
        assert(seq_views(r@) =~= seq_views(before).push(c@));
        i = i + 1;
        assert(seq_views(r@) =~= seq_views(v@).subrange(0, i as int));
    }
    assert(seq_views(v@).subrange(0, i as int) =~= seq_views(v@));
    r
}

pub open spec fn hit_views(h: Seq<(String, ConflictWarning)>) -> Seq<(Seq<char>, WarningView)> {
    h.map_values(|e: (String, ConflictWarning)| (e.0@, e.1@))
}

/// Every `(item id, warning)` hit, warning by warning.
fn collect_hits(sources: &[EffectSource], warnings: &Vec<ConflictWarning>) -> (h: Vec<(String, ConflictWarning)>)
    ensures
        hit_views(h@) == all_item_hits(seq_views(sources@), seq_views(warnings@)),
{
    let ghost sv = seq_views(sources@);
    let ghost wv = seq_views(warnings@);
    let mut h: Vec<(String, ConflictWarning)> = Vec::new();
    let mut i: usize = 0;
    while i < warnings.len()
        invariant
            sv == seq_views(sources@),
            wv == seq_views(warnings@),
            i <= wv.len(),
            hit_views(h@) == all_item_hits(sv, wv.subrange(0, i as int)),
        decreases wv.len() - i,
    {
        let ghost nxt = wv.subrange(0, i + 1);
        assert(nxt.drop_last() =~= wv.subrange(0, i as int));
        assert(nxt.last() == warnings@[i as int]@);
        let ghost start = hit_views(h@);
        let mut j: usize = 0;
        while j < sources.len()
            invariant
                sv == seq_views(sources@),
                wv == seq_views(warnings@),
                i < wv.len(),
                j <= sv.len(),
                hit_views(h@) == start + item_hits(sv.subrange(0, j as int), wv[i as int]),
            decreases sv.len() - j,
        {
            let ghost pre = sv.subrange(0, j as int);
            let ghost nx = sv.subrange(0, j + 1);
            assert(nx.drop_last() =~= pre);
            assert(nx.last() == sources@[j as int]@);
            assert(wv[i as int] == warnings@[i as int]@);
            let x = &sources[j];
            if str_eq(x.source_type.as_str(), "item") && str_eq(x.group_id.as_str(), warnings[i].group_id.as_str()) {
                let e = (x.source_id.clone(), clone_warning(&warnings[i]));
                let ghost before = h@;
                h.push(e);
                assert(hit_views(h@) =~= hit_views(before).push((e.0@, e.1@)));
            }
            j = j + 1;
        }
        assert(sv.subrange(0, j as int) =~= sv);
        i = i + 1;
    }
    assert(wv.subrange(0, i as int) =~= wv);
    h
}

/// Groups the hits by item.
fn group_hits(h: &Vec<(String, ConflictWarning)>) -> (t: Vec<(String, Vec<ConflictWarning>)>)
    ensures
        t@.map_values(|e: (String, Vec<ConflictWarning>)| (e.0@, seq_views(e.1@))) == grouped_hits(
            hit_views(h@),
        ),
{
    let ghost hv = hit_views(h@);
    let ghost kv = hv.map_values(|e: (Seq<char>, WarningView)| e.0);
    let mut keys: Vec<String> = Vec::new();
    let mut i: usize = 0;
    while i < h.len()
        invariant
            hv == hit_views(h@),
            kv == hv.map_values(|e: (Seq<char>, WarningView)| e.0),
            i <= hv.len(),
            views(keys@) == first_occurrences(kv.subrange(0, i as int)),
        decreases hv.len() - i,
    {
        let ghost nxt = kv.subrange(0, i + 1);
        assert(nxt.drop_last() =~= kv.subrange(0, i as int));
        assert(nxt.last() == h@[i as int].0@);
        if !list_has(&keys, h[i].0.as_str()) {
            let ghost before = views(keys@);
            keys.push(h[i].0.clone());
            assert(views(keys@) =~= before.push(h@[i as int].0@));
        }
        i = i + 1;
    }
    assert(kv.subrange(0, i as int) =~= kv);
    let ghost ks = views(keys@);
    let mut t: Vec<(String, Vec<ConflictWarning>)> = Vec::new();
    let mut k: usize = 0;
    while k < keys.len()
        invariant
            hv == hit_views(h@),
            ks == views(keys@),
            k <= ks.len(),
            t@.map_values(|e: (String, Vec<ConflictWarning>)| (e.0@, seq_views(e.1@))) == ks.subrange(
                0,
                k as int,
            ).map_values(|key: Seq<char>| (key, hits_for(hv, key))),
        decreases ks.len() - k,
    {
        let mut ws: Vec<ConflictWarning> = Vec::new();
        let mut j: usize = 0;
        while j < h.len()
            invariant
                hv == hit_views(h@),
                ks == views(keys@),
                k < ks.len(),
                j <= hv.len(),
                seq_views(ws@) == hits_for(hv.subrange(0, j as int), ks[k as int]),
            decreases hv.len() - j,
        {
            let ghost nxt = hv.subrange(0, j + 1);
            assert(nxt.drop_last() =~= hv.subrange(0, j as int));
            assert(nxt.last() == (h@[j as int].0@, h@[j as int].1@));
            if str_eq(h[j].0.as_str(), keys[k].as_str()) {
                let c = clone_warning(&h[j].1);
                let ghost before = seq_views(ws@);
                ws.push(c);
                assert(seq_views(ws@) =~= before.push(c@));
            }
            j = j + 1;
        }
        assert(hv.subrange(0, j as int) =~= hv);
        let ghost before = t@;
        let e = (keys[k].clone(), ws);
        let ghost ev = (e.0@, seq_views(e.1@));
        assert(ev == (ks[k as int], hits_for(hv, ks[k as int])));
        t.push(e);
        assert(t@.map_values(|e: (String, Vec<ConflictWarning>)| (e.0@, seq_views(e.1@))) =~= before.map_values(
            |e: (String, Vec<ConflictWarning>)| (e.0@, seq_views(e.1@)),
        ).push(ev));
        assert(ks.subrange(0, k + 1).map_values(|key: Seq<char>| (key, hits_for(hv, key))) =~= ks.subrange(
            0,
            k as int,
        ).map_values(|key: Seq<char>| (key, hits_for(hv, key))).push(ev));
        k = k + 1;
        assert(t@.map_values(|e: (String, Vec<ConflictWarning>)| (e.0@, seq_views(e.1@))) =~= ks.subrange(
            0,
            k as int,
        ).map_values(|key: Seq<char>| (key, hits_for(hv, key))));
    }
    assert(ks.subrange(0, k as int) =~= ks);
    t
}

fn warning_label_text(x: &ConflictWarning) -> (r: String)
    ensures
        r@ == warning_label(x@),
{
    let mut r = cat(x.group_label.as_str(), " (降权");
    push_str(&mut r, int_to_text(x.penalty_score as i64).as_str());
    push_str(&mut r, ")");
    r
}

impl ItemConflictScorer {
    /// The team report over sources of any kind (items, augments, traits,
    /// skills) in the given matchup.
    pub fn detect_source_conflicts(
        &self,
        sources: &[EffectSource],
        environment: &ConflictEnvironment,
    ) -> (r: TeamConflictReport)
        requires
            self.well_formed(),
            warnings_fit(
                self.groups_view(),
                self.values_view(),
                self.modifiers_view(),
                seq_views(sources@),
                *environment,
            ),
            penalties_fit(self.groups_view(), self.values_view(), self.modifiers_view(), seq_views(sources@), *environment),
        ensures
            exists|w: Seq<WarningView>|
                warnings_match(
                    self.groups_view(),
                    self.values_view(),
                    self.modifiers_view(),
                    seq_views(sources@),
                    *environment,
                    w,
                ) && report_matches(self.groups_view(), seq_views(sources@), w, r@),
    {
        let ghost sv = seq_views(sources@);
        let warnings = self.warnings_from_sources(sources, environment);
        let ghost wv = seq_views(warnings@);
        assert(forall|q: int| 0 <= q < wv.len() ==> (#[trigger] wv[q]).penalty_score <= 0) by {
            assert forall|q: int| 0 <= q < wv.len() implies (#[trigger] wv[q]).penalty_score <= 0 by {
                assert(wv[q] == warnings@[q]@);
            }
        }
        assert(penalty_sum(wv) >= i32::MIN);
        let mut total: i32 = 0;
        let mut i: usize = 0;
        while i < warnings.len()
            invariant
                wv == seq_views(warnings@),
                i <= wv.len(),
                forall|q: int| 0 <= q < wv.len() ==> (#[trigger] wv[q]).penalty_score <= 0,
                penalty_sum(wv) >= i32::MIN,
                total == penalty_sum(wv.subrange(0, i as int)),
            decreases wv.len() - i,
        {
            let ghost nxt = wv.subrange(0, i + 1);
            assert(nxt.drop_last() =~= wv.subrange(0, i as int));
            assert(nxt.last() == warnings@[i as int]@);
            proof {
                lemma_penalty_prefix(wv, i + 1);
            }
            total = total + warnings[i].penalty_score;
            i = i + 1;
        }
        assert(wv.subrange(0, i as int) =~= wv);
        let hits = collect_hits(sources, &warnings);
        let item_conflicts = group_hits(&hits);
        let ids = distinct_group_ids(sources);
        let covered_groups = sorted_texts(&ids);
        let mut rest: Vec<String> = Vec::new();
        let ghost gk = group_keys(self.groups_view());
        let mut g: usize = 0;
        while g < self.groups.len()
            invariant
                self.well_formed(),
                gk == group_keys(self.groups_view()),
                g <= gk.len(),
                distinct_texts(views(rest@)),
                forall|x: Seq<char>|
                    views(rest@).contains(x) <==> (gk.subrange(0, g as int).contains(x) && !views(ids@).contains(x)),
            decreases gk.len() - g,
        {
            assert(gk[g as int] == self.groups@[g as int].0@);
            let ghost before = views(rest@);
            let listed = list_has(&ids, self.groups[g].0.as_str());
            if !listed {
                rest.push(self.groups[g].0.clone());
                proof {
                    assert(views(rest@) =~= before.push(gk[g as int]));
                    assert forall|x: Seq<char>| views(rest@).contains(x) <==> (before.contains(x) || gk[g as int] == x) by {
                        if views(rest@).contains(x) {
                            let m = choose|m: int| 0 <= m < views(rest@).len() && views(rest@)[m] == x;
                            if m < before.len() {
                                assert(before[m] == x);
                            }
                        }
                        if before.contains(x) {
                            let m = choose|m: int| 0 <= m < before.len() && before[m] == x;
                            assert(views(rest@)[m] == x);
                        }
                        if gk[g as int] == x {
                            assert(views(rest@)[before.len() as int] == x);
                        }
                    }
                    assert forall|j: int| 0 <= j < before.len() implies before[j] != gk[g as int] by {
                        assert(before.contains(before[j]));
                        let s0 = gk.subrange(0, g as int);
                        let m = choose|m: int| 0 <= m < s0.len() && s0[m] == before[j];
                        assert(gk[m] == before[j]);
                        assert(self.groups_view()[m].0 != self.groups_view()[g as int].0);
                    }
                }
            }
            proof {
                let s0 = gk.subrange(0, g as int);
                let s1 = gk.subrange(0, g + 1);
                assert forall|x: Seq<char>| s1.contains(x) <==> (s0.contains(x) || gk[g as int] == x) by {
                    if s1.contains(x) {
                        let m = choose|m: int| 0 <= m < s1.len() && s1[m] == x;
                        if m < g {
                            assert(s0[m] == x);
                        }
                    }
                    if s0.contains(x) {
                        let m = choose|m: int| 0 <= m < s0.len() && s0[m] == x;
                        assert(s1[m] == x);
                    }
                    if gk[g as int] == x {
                        assert(s1[g as int] == x);
                    }
                }
                assert forall|x: Seq<char>| views(rest@).contains(x) <==> (s1.contains(x) && !views(ids@).contains(x)) by {
                    if views(rest@).contains(x) {
                        if !before.contains(x) {
                            assert(gk[g as int] == x);
                        }
                    }
                }
            }
            g = g + 1;
        }
        assert(gk.subrange(0, g as int) =~= gk);
        let uncovered_groups = sorted_texts(&rest);
        let mut source_labels: Vec<String> = Vec::new();
        let mut j: usize = 0;
        while j < sources.len()
            invariant
                sv == seq_views(sources@),
                j <= sv.len(),
                views(source_labels@) == sv.subrange(0, j as int).map_values(|x: SourceView| source_label(x)),
            decreases sv.len() - j,
        {
            let l = source_label_text(&sources[j]);
            let ghost before = views(source_labels@);
            source_labels.push(l);
            assert(sources@[j as int]@ == sv[j as int]);
            assert(views(source_labels@) =~= before.push(source_label(sv[j as int])));
            assert(sv.subrange(0, j + 1).map_values(|x: SourceView| source_label(x)) =~= sv.subrange(
                0,
                j as int,
            ).map_values(|x: SourceView| source_label(x)).push(source_label(sv[j as int])));
            j = j + 1;
            assert(views(source_labels@) =~= sv.subrange(0, j as int).map_values(|x: SourceView| source_label(x)));
        }
        assert(sv.subrange(0, j as int) =~= sv);
        let mut warning_labels: Vec<String> = Vec::new();
        let mut q: usize = 0;
        while q < warnings.len()
            invariant
                wv == seq_views(warnings@),
                q <= wv.len(),
                views(warning_labels@) == wv.subrange(0, q as int).map_values(|x: WarningView| warning_label(x)),
            decreases wv.len() - q,
        {
            let l = warning_label_text(&warnings[q]);
            let ghost before = views(warning_labels@);
            warning_labels.push(l);
            assert(warnings@[q as int]@ == wv[q as int]);
            assert(views(warning_labels@) =~= before.push(warning_label(wv[q as int])));
            assert(wv.subrange(0, q + 1).map_values(|x: WarningView| warning_label(x)) =~= wv.subrange(
                0,
                q as int,
            ).map_values(|x: WarningView| warning_label(x)).push(warning_label(wv[q as int])));
            q = q + 1;
            assert(views(warning_labels@) =~= wv.subrange(0, q as int).map_values(|x: WarningView| warning_label(x)));
        }
        assert(wv.subrange(0, q as int) =~= wv);
        let summary = join(&source_labels, "、");
        let mut coverage_explanation = cat("来源: ", summary.as_str());
        if warnings.len() == 0 {
            push_str(&mut coverage_explanation, " | 无效果冲突");
        } else {
            push_str(&mut coverage_explanation, " | 冲突警告: ");
            let ws = join(&warning_labels, "; ");
            push_str(&mut coverage_explanation, ws.as_str());
        }
        let r = TeamConflictReport {
            item_conflicts,
            covered_groups,
            uncovered_groups,
            total_penalty: total,
            coverage_explanation,
        };
        proof {
            let rv = r@;
            assert forall|x: Seq<char>| rv.covered_groups.contains(x) <==> gid_list(sv).contains(x) by {
                if gid_list(sv).contains(x) {
                    let si = choose|si: int| 0 <= si < gid_list(sv).len() && gid_list(sv)[si] == x;
                    assert(views(ids@).contains(gid_list(seq_views(sources@))[si]));
                }
            }
            assert forall|x: Seq<char>| rv.uncovered_groups.contains(x) <==> (gk.contains(x) && !gid_list(
                sv,
            ).contains(x)) by {
                if gid_list(sv).contains(x) {
                    let si = choose|si: int| 0 <= si < gid_list(sv).len() && gid_list(sv)[si] == x;
                    assert(views(ids@).contains(gid_list(seq_views(sources@))[si]));
                }
            }
            assert(report_matches(self.groups_view(), sv, wv, rv));
        }
        r
    }
}

// ---------------------------------------------------------------------------
// The warnings are determined by their inputs
// ---------------------------------------------------------------------------

proof fn lemma_same_gid_at(
    groups: Seq<(Seq<char>, GroupView)>,
    values: Option<Seq<i32>>,
    mods: Seq<(Seq<char>, ModifierView)>,
    s: Seq<SourceView>,
    env1: ConflictEnvironment,
    env2: ConflictEnvironment,
    w1: Seq<WarningView>,
    w2: Seq<WarningView>,
    i: int,
)
    requires
        warnings_match(groups, values, mods, s, env1, w1),
        warnings_match(groups, values, mods, s, env2, w2),
        0 <= i < w1.len(),
        i < w2.len(),
    ensures
        w1[i].group_id == w2[i].group_id,
    decreases i,
{
    let x = w1[i].group_id;
    let y = w2[i].group_id;
    if x != y {
        assert(raises_warning(groups, s, w1[i].group_id));
        assert(raises_warning(groups, s, w2[i].group_id));
        let j = choose|j: int| 0 <= j < w2.len() && (#[trigger] w2[j]).group_id == x;
        let k = choose|k: int| 0 <= k < w1.len() && (#[trigger] w1[k]).group_id == y;
        if j < i {
            lemma_same_gid_at(groups, values, mods, s, env1, env2, w1, w2, j);
            assert(text_lt(w1[j].group_id, w1[i].group_id));
            crate::order::lemma_text_lt_irreflexive(x);
        }
        if k < i {
            lemma_same_gid_at(groups, values, mods, s, env1, env2, w1, w2, k);
            assert(text_lt(w2[k].group_id, w2[i].group_id));
            crate::order::lemma_text_lt_irreflexive(y);
        }
        assert(j > i);
        assert(k > i);
        assert(text_lt(y, x));
        assert(text_lt(x, y));
        crate::order::lemma_text_lt_asymmetric(x, y);
    }
}

proof fn lemma_relief_not_negative(mods: Seq<(Seq<char>, ModifierView)>, active: bool, key: Seq<char>, gid: Seq<char>)
    requires
        forall|k: int| 0 <= k < mods.len() ==> (#[trigger] mods[k]).1.penalty_relief >= 0,
    ensures
        modifier_relief(mods, active, key, gid) >= 0,
{
    if active && lookup(mods, key) is Some {
        crate::keyed::lemma_lookup_entry(mods, key);
    }
}

/// A matchup can only relieve a conflict: when no configured modifier takes
/// value away, the warnings in any matchup name the same groups in the same
/// order as in the calm matchup, each penalty at least the calm one and never
/// above zero.
pub proof fn lemma_environment_relieves(
    groups: Seq<(Seq<char>, GroupView)>,
    values: Option<Seq<i32>>,
    mods: Seq<(Seq<char>, ModifierView)>,
    s: Seq<SourceView>,
    env: ConflictEnvironment,
    a: Seq<WarningView>,
    d: Seq<WarningView>,
)
    requires
        forall|k: int| 0 <= k < mods.len() ==> (#[trigger] mods[k]).1.penalty_relief >= 0,
        warnings_match(groups, values, mods, s, env, a),
        warnings_match(groups, values, mods, s, calm_environment(), d),
    ensures
        a.len() == d.len(),
        forall|i: int| 0 <= i < a.len() ==> (#[trigger] a[i]).group_id == d[i].group_id,
        forall|i: int| 0 <= i < a.len() ==> d[i].penalty_score <= (#[trigger] a[i]).penalty_score <= 0,
{
    let calm = calm_environment();
    assert forall|i: int| 0 <= i < a.len() && i < d.len() implies (#[trigger] a[i]).group_id == d[i].group_id
        && d[i].penalty_score <= a[i].penalty_score <= 0 by {
        lemma_same_gid_at(groups, values, mods, s, env, calm, a, d, i);
        let gid = a[i].group_id;
        assert(a[i] == warning_for(groups, values, mods, s, gid, env));
        assert(d[i] == warning_for(groups, values, mods, s, gid, calm));
        lemma_relief_not_negative(mods, env.opponent_heal_heavy, "opponent_heal_heavy"@, gid);
        lemma_relief_not_negative(mods, env.opponent_frontline_thick, "opponent_frontline_thick"@, gid);
        lemma_relief_not_negative(mods, env.opponent_burst_heavy, "opponent_burst_heavy"@, gid);
        lemma_relief_not_negative(mods, env.own_ap_heavy, "own_ap_heavy"@, gid);
        lemma_relief_not_negative(mods, env.own_ad_heavy, "own_ad_heavy"@, gid);
    }
    if a.len() > d.len() {
        let n = d.len() as int;
        let x = a[n].group_id;
        assert(raises_warning(groups, s, a[n].group_id));
        let j = choose|j: int| 0 <= j < d.len() && (#[trigger] d[j]).group_id == x;
        assert(a[j].group_id == d[j].group_id);
        assert(text_lt(a[j].group_id, a[n].group_id));
        crate::order::lemma_text_lt_irreflexive(x);
    }
    if d.len() > a.len() {
        let n = a.len() as int;
        let x = d[n].group_id;
        assert(raises_warning(groups, s, d[n].group_id));
        let j = choose|j: int| 0 <= j < a.len() && (#[trigger] a[j]).group_id == x;
        assert(a[j].group_id == d[j].group_id);
        assert(text_lt(d[j].group_id, d[n].group_id));
        crate::order::lemma_text_lt_irreflexive(x);
    }
}

/// `min(p + r, 0)`: a penalty relieved by `r`, never above zero.
pub open spec fn relieved(p: int, r: int) -> int {
    if p + r < 0 {
        p + r
    } else {
        0
    }
}

/// With no matchup modifiers configured, a matchup relieves the groups it
/// favours by fixed amounts: magic-resist shred by 25 exactly when the own
/// team is AP-heavy; armor shred by 25 when the own team is AD-heavy, else by
/// 10 against a thick frontline; anti-heal by 10 against a heal-heavy
/// opponent; shields and once-per-fight effects by 15 against a burst-heavy
/// opponent. Every other penalty is the calm one. The warnings of the
/// matchup and of the calm matchup name the same groups in the same order.
pub proof fn lemma_builtin_matchup_relief(
    groups: Seq<(Seq<char>, GroupView)>,
    values: Option<Seq<i32>>,
    s: Seq<SourceView>,
    env: ConflictEnvironment,
    a: Seq<WarningView>,
    d: Seq<WarningView>,
)
    requires
        warnings_match(groups, values, Seq::empty(), s, env, a),
        warnings_match(groups, values, Seq::empty(), s, calm_environment(), d),
    ensures
        a.len() == d.len(),
        forall|i: int|
            0 <= i < a.len() ==> {
                let g = (#[trigger] a[i]).group_id;
                let p = d[i].penalty_score as int;
                &&& g == d[i].group_id
                &&& g == "mr_shred"@ ==> a[i].penalty_score == if env.own_ap_heavy {
                    relieved(p, 25)
                } else {
                    p
                }
                &&& g == "armor_shred"@ ==> a[i].penalty_score == if env.own_ad_heavy {
                    relieved(p, 25)
                } else if env.opponent_frontline_thick {
                    relieved(p, 10)
                } else {
                    p
                }
                &&& g == "anti_heal"@ ==> a[i].penalty_score == if env.opponent_heal_heavy {
                    relieved(p, 10)
                } else {
                    p
                }
                &&& (g == "shield_survival"@ || g == "unique_trigger"@) ==> a[i].penalty_score
                    == if env.opponent_burst_heavy {
                    relieved(p, 15)
                } else {
                    p
                }
                &&& (g != "mr_shred"@ && g != "armor_shred"@ && g != "anti_heal"@ && g != "shield_survival"@ && g
                    != "unique_trigger"@) ==> a[i].penalty_score == p
            },
{
    let calm = calm_environment();
    let mods = Seq::<(Seq<char>, ModifierView)>::empty();
    reveal_strlit("mr_shred");
    reveal_strlit("armor_shred");
    reveal_strlit("anti_heal");
    reveal_strlit("shield_survival");
    reveal_strlit("unique_trigger");
    assert("mr_shred"@[0] == 'm' && "armor_shred"@[1] == 'r' && "anti_heal"@[1] == 'n');
    assert("shield_survival"@[0] == 's' && "unique_trigger"@[0] == 'u' && "armor_shred"@[0] == 'a');
    assert forall|i: int| 0 <= i < a.len() && i < d.len() implies {
        let g = (#[trigger] a[i]).group_id;
        let p = d[i].penalty_score as int;
        &&& g == d[i].group_id
        &&& g == "mr_shred"@ ==> a[i].penalty_score == if env.own_ap_heavy {
            relieved(p, 25)
        } else {
            p
        }
        &&& g == "armor_shred"@ ==> a[i].penalty_score == if env.own_ad_heavy {
            relieved(p, 25)
        } else if env.opponent_frontline_thick {
            relieved(p, 10)
        } else {
            p
        }
        &&& g == "anti_heal"@ ==> a[i].penalty_score == if env.opponent_heal_heavy {
            relieved(p, 10)
        } else {
            p
        }
        &&& (g == "shield_survival"@ || g == "unique_trigger"@) ==> a[i].penalty_score == if env.opponent_burst_heavy {
            relieved(p, 15)
        } else {
            p
        }
        &&& (g != "mr_shred"@ && g != "armor_shred"@ && g != "anti_heal"@ && g != "shield_survival"@ && g
            != "unique_trigger"@) ==> a[i].penalty_score == p
    } by {
        lemma_same_gid_at(groups, values, mods, s, env, calm, a, d, i);
        let gid = a[i].group_id;
        assert(a[i] == warning_for(groups, values, mods, s, gid, env));
        assert(d[i] == warning_for(groups, values, mods, s, gid, calm));
        if gid == "mr_shred"@ || gid == "armor_shred"@ || gid == "anti_heal"@ || gid == "shield_survival"@ || gid
            == "unique_trigger"@ {
            assert(gid[0] == "mr_shred"@[0] || gid[0] == 'a' || gid[0] == 's' || gid[0] == 'u');
        }
    }
    if a.len() > d.len() {
        let n = d.len() as int;
        let x = a[n].group_id;
        assert(raises_warning(groups, s, a[n].group_id));
        let j = choose|j: int| 0 <= j < d.len() && (#[trigger] d[j]).group_id == x;
        lemma_same_gid_at(groups, values, mods, s, env, calm, a, d, j);
        assert(text_lt(a[j].group_id, a[n].group_id));
        crate::order::lemma_text_lt_irreflexive(x);
    }
    if d.len() > a.len() {
        let n = a.len() as int;
        let x = d[n].group_id;
        assert(raises_warning(groups, s, d[n].group_id));
        let j = choose|j: int| 0 <= j < a.len() && (#[trigger] a[j]).group_id == x;
        lemma_same_gid_at(groups, values, mods, s, env, calm, a, d, j);
        assert(text_lt(d[j].group_id, d[n].group_id));
        crate::order::lemma_text_lt_irreflexive(x);
    }
}

/// The warnings of a list of sources are determined by the sources, the
/// configuration and the matchup: two lists that both match them are equal.
pub proof fn lemma_warnings_determined(
    groups: Seq<(Seq<char>, GroupView)>,
    values: Option<Seq<i32>>,
    mods: Seq<(Seq<char>, ModifierView)>,
    s: Seq<SourceView>,
    env: ConflictEnvironment,
    w1: Seq<WarningView>,
    w2: Seq<WarningView>,
)
    requires
        warnings_match(groups, values, mods, s, env, w1),
        warnings_match(groups, values, mods, s, env, w2),
    ensures
        w1 == w2,
{
    assert forall|i: int| 0 <= i < w1.len() && i < w2.len() implies w1[i] == w2[i] by {
        lemma_same_gid_at(groups, values, mods, s, env, env, w1, w2, i);
        assert(w1[i] == warning_for(groups, values, mods, s, w1[i].group_id, env));
        assert(w2[i] == warning_for(groups, values, mods, s, w2[i].group_id, env));
    }
    if w1.len() > w2.len() {
        let n = w2.len() as int;
        let x = w1[n].group_id;
        assert(raises_warning(groups, s, w1[n].group_id));
        let j = choose|j: int| 0 <= j < w2.len() && (#[trigger] w2[j]).group_id == x;
        assert(w1[j] == w2[j]);
        assert(text_lt(w1[j].group_id, w1[n].group_id));
        crate::order::lemma_text_lt_irreflexive(x);
    }
    if w2.len() > w1.len() {
        let n = w1.len() as int;
        let x = w2[n].group_id;
        assert(raises_warning(groups, s, w2[n].group_id));
        let j = choose|j: int| 0 <= j < w1.len() && (#[trigger] w1[j]).group_id == x;
        assert(w1[j] == w2[j]);
        assert(text_lt(w2[j].group_id, w2[n].group_id));
        crate::order::lemma_text_lt_irreflexive(x);
    }
    assert(w1 =~= w2);
}

/// Sources that cover an effect in different ways never make its penalty
/// worse: while at most all of the value is kept, the penalty of diverse
/// sources is no more severe, before and after matchup relief.
pub proof fn lemma_diverse_coverage_softens(
    values: Option<Seq<i32>>,
    g: GroupView,
    count: nat,
    mods: Seq<(Seq<char>, ModifierView)>,
    gid: Seq<char>,
    env: ConflictEnvironment,
)
    requires
        retained_value(values, g, count) <= 100,
    ensures
        base_penalty(values, g, count, false) <= base_penalty(values, g, count, true) <= 0,
        adjusted_penalty(mods, gid, base_penalty(values, g, count, false), env) <= adjusted_penalty(
            mods,
            gid,
            base_penalty(values, g, count, true),
            env,
        ),
{
    let p = -(100 - retained_value(values, g, count));
    assert(p <= 0);
    assert(-((-(p * 6)) / 10) >= p) by (nonlinear_arith)
        requires
            p <= 0,
    ;
    assert(-((-(p * 6)) / 10) <= 0) by (nonlinear_arith)
        requires
            p <= 0,
    ;
}

/// A matchup can only relieve conflicts: where the configured modifiers only
/// relieve, the warnings in any environment name the same groups, in the same
/// order, as in a calm one, and each penalty is at least the calm one and
/// never above zero.
pub proof fn lemma_environment_only_relieves(
    groups: Seq<(Seq<char>, GroupView)>,
    values: Option<Seq<i32>>,
    mods: Seq<(Seq<char>, ModifierView)>,
    s: Seq<SourceView>,
    env: ConflictEnvironment,
    with_env: Seq<WarningView>,
    calm: Seq<WarningView>,
)
    requires
        forall|i: int| 0 <= i < mods.len() ==> #[trigger] mods[i].1.penalty_relief >= 0,
        warnings_match(groups, values, mods, s, env, with_env),
        warnings_match(groups, values, mods, s, calm_environment(), calm),
    ensures
        with_env.len() == calm.len(),
        forall|i: int|
            0 <= i < calm.len() ==> (#[trigger] with_env[i]).group_id == calm[i].group_id && calm[i].penalty_score
                <= with_env[i].penalty_score <= 0,
{
    let moved = calm.map_values(|w: WarningView| warning_for(groups, values, mods, s, w.group_id, env));
    assert forall|i: int| 0 <= i < moved.len() implies (#[trigger] moved[i]).group_id == calm[i].group_id by {}
    assert(warnings_match(groups, values, mods, s, env, moved)) by {
        assert forall|i: int, j: int| 0 <= i < j < moved.len() implies text_lt(moved[i].group_id, moved[j].group_id) by {
            assert(moved[i].group_id == calm[i].group_id);
            assert(moved[j].group_id == calm[j].group_id);
        }
        assert forall|i: int| 0 <= i < moved.len() implies raises_warning(groups, s, (#[trigger] moved[i]).group_id)
            && moved[i] == warning_for(groups, values, mods, s, moved[i].group_id, env) by {
            assert(moved[i].group_id == calm[i].group_id);
        }
        assert forall|gid: Seq<char>| #[trigger] raises_warning(groups, s, gid) implies exists|i: int|
            0 <= i < moved.len() && (#[trigger] moved[i]).group_id == gid by {
            let i = choose|i: int| 0 <= i < calm.len() && (#[trigger] calm[i]).group_id == gid;
            assert(moved[i].group_id == gid);
        }
    }
    lemma_warnings_determined(groups, values, mods, s, env, with_env, moved);
    assert forall|i: int| 0 <= i < calm.len() implies (#[trigger] with_env[i]).group_id == calm[i].group_id
        && calm[i].penalty_score <= with_env[i].penalty_score <= 0 by {
        let gid = calm[i].group_id;
        assert(with_env[i] == moved[i]);
        let g = lookup(groups, gid).unwrap();
        let base = base_penalty(values, g, count_group(s, gid), coverage_kinds(s, gid) > 1);
        lemma_relief_never_hurts(mods, gid, base, env);
    }
}

/// Matchup relief never makes a penalty worse, and a penalty is never above
/// zero: with no configured modifiers, or modifiers that only relieve,
/// the penalty in any matchup is at least the penalty in a calm one.
pub proof fn lemma_relief_never_hurts(
    mods: Seq<(Seq<char>, ModifierView)>,
    gid: Seq<char>,
    penalty: int,
    env: ConflictEnvironment,
)
    requires
        forall|i: int| 0 <= i < mods.len() ==> #[trigger] mods[i].1.penalty_relief >= 0,
    ensures
        adjusted_penalty(mods, gid, penalty, calm_environment()) <= adjusted_penalty(mods, gid, penalty, env) <= 0,
{
    let keys = seq![
        "opponent_heal_heavy"@,
        "opponent_frontline_thick"@,
        "opponent_burst_heavy"@,
        "own_ap_heavy"@,
        "own_ad_heavy"@,
    ];
    assert forall|k: int| 0 <= k < 5 implies modifier_relief(mods, true, #[trigger] keys[k], gid) >= 0 by {
        if lookup(mods, keys[k]) is Some {
            crate::keyed::lemma_lookup_entry(mods, keys[k]);
            let j = choose|j: int| 0 <= j < mods.len() && #[trigger] mods[j] == (keys[k], lookup(mods, keys[k])->0);
            assert(mods[j].1.penalty_relief >= 0);
        }
    }
    assert(modifier_relief(mods, true, keys[0], gid) >= 0);
    assert(modifier_relief(mods, true, keys[1], gid) >= 0);
    assert(modifier_relief(mods, true, keys[2], gid) >= 0);
    assert(modifier_relief(mods, true, keys[3], gid) >= 0);
    assert(modifier_relief(mods, true, keys[4], gid) >= 0);
}

// ---------------------------------------------------------------------------
// Team report from item ids and item profiles
// ---------------------------------------------------------------------------

/// The item profiles a list of references points at.
pub open spec fn profile_refs(s: Seq<&ItemValueProfile>) -> Seq<ItemValueProfile> {
    s.map_values(|p: &ItemValueProfile| *p)
}

/// The first profile of item `id`.
pub open spec fn first_profile(profiles: Seq<ItemValueProfile>, id: Seq<char>) -> Option<ItemValueProfile>
    decreases profiles.len(),
{
    if profiles.len() == 0 {
        None
    } else if profiles[0].item_id@ == id {
        Some(profiles[0])
    } else {
        first_profile(profiles.drop_first(), id)
    }
}

/// Some source of `known` is item `id` in group `gid`.
pub open spec fn known_pair(known: Seq<SourceView>, id: Seq<char>, gid: Seq<char>) -> bool {
    exists|i: int| 0 <= i < known.len() && (#[trigger] known[i]).source_id == id && known[i].group_id == gid
}

/// The source an item's profile adds: its conflict group, when it has one
/// that no source of `known` already gives that item.
pub open spec fn profile_sources(known: Seq<SourceView>, ids: Seq<Seq<char>>, profiles: Seq<ItemValueProfile>) -> Seq<
    SourceView,
>
    decreases ids.len(),
{
    if ids.len() == 0 {
        seq![]
    } else {
        let rest = profile_sources(known, ids.drop_last(), profiles);
        let id = ids.last();
        match first_profile(profiles, id) {
            Some(p) => if p.conflict_group@.len() > 0 && !known_pair(known, id, p.conflict_group@) {
                rest.push(
                    SourceView {
                        source_type: "item"@,
                        source_id: id,
                        source_name: p.name@,
                        group_id: p.conflict_group@,
                        coverage: CoverageType::Unknown,
                        weight: 100,
                    },
                )
            } else {
                rest
            },
            None => rest,
        }
    }
}

/// The sources of a team's items: those the conflict groups list, then those
/// the item profiles add.
pub open spec fn team_sources(
    groups: Seq<(Seq<char>, GroupView)>,
    ids: Seq<Seq<char>>,
    profiles: Seq<ItemValueProfile>,
) -> Seq<SourceView> {
    let listed = sources_of_items(groups, ids);
    listed + profile_sources(listed, ids, profiles)
}

fn find_profile<'a>(profiles: &'a [&'a ItemValueProfile], id: &str) -> (r: Option<&'a ItemValueProfile>)
    ensures
        match r {
            Some(p) => first_profile(profile_refs(profiles@), id@) == Some(*p),
            None => first_profile(profile_refs(profiles@), id@) is None,
        },
{
    let ghost pv = profile_refs(profiles@);
    let mut i: usize = 0;
    assert(pv.subrange(0, pv.len() as int) =~= pv);
    while i < profiles.len()
        invariant
            pv == profile_refs(profiles@),
            i <= pv.len(),
            first_profile(pv, id@) == first_profile(pv.subrange(i as int, pv.len() as int), id@),
        decreases pv.len() - i,
    {
        let ghost rest = pv.subrange(i as int, pv.len() as int);
        assert(rest[0] == pv[i as int]);
        assert(rest.drop_first() =~= pv.subrange(i + 1, pv.len() as int));
        if str_eq(profiles[i].item_id.as_str(), id) {
            return Some(profiles[i]);
        }
        i = i + 1;
    }
    None
}

fn clone_source(x: &EffectSource) -> (r: EffectSource)
    ensures
        r@ == x@,
{
    EffectSource {
        source_type: x.source_type.clone(),
        source_id: x.source_id.clone(),
        source_name: x.source_name.clone(),
        group_id: x.group_id.clone(),
        coverage: x.coverage,
        weight: x.weight,
    }
}

fn clone_sources(v: &Vec<EffectSource>) -> (r: Vec<EffectSource>)
    ensures
        seq_views(r@) == seq_views(v@),
{
    let mut r: Vec<EffectSource> = Vec::new();
    let mut i: usize = 0;
    while i < v.len()
        invariant
            i <= v@.len(),
            seq_views(r@) == seq_views(v@).subrange(0, i as int),
        decreases v@.len() - i,
    {
        let ghost before = seq_views(r@);
        let c = clone_source(&v[i]);
        r.push(c);
        assert(seq_views(r@) =~= before.push(c@));
        assert(seq_views(v@)[i as int] == v@[i as int]@);
        assert(seq_views(r@) =~= seq_views(v@).subrange(0, i + 1));
        i = i + 1;
    }
    assert(seq_views(v@).subrange(0, i as int) =~= seq_views(v@));
    r
}

fn has_pair(known: &Vec<EffectSource>, id: &str, gid: &str) -> (b: bool)
    ensures
        b == known_pair(seq_views(known@), id@, gid@),
{
    let ghost kv = seq_views(known@);
    let mut i: usize = 0;
    while i < known.len()
        invariant
            kv == seq_views(known@),
            i <= kv.len(),
            forall|j: int| 0 <= j < i ==> !((#[trigger] kv[j]).source_id == id@ && kv[j].group_id == gid@),
        decreases kv.len() - i,
    {
        assert(kv[i as int] == known@[i as int]@);
        if str_eq(known[i].source_id.as_str(), id) && str_eq(known[i].group_id.as_str(), gid) {
            return true;
        }
        i = i + 1;
    }
    false
}

impl ItemConflictScorer {
    /// Adds, for each item whose profile names a conflict group, a source in
    /// that group, unless the listed sources already hold that item there.
    fn add_profile_sources(sources: &mut Vec<EffectSource>, item_ids: &[String], item_profiles: &[&ItemValueProfile])
        ensures
            seq_views(final(sources)@) == seq_views(old(sources)@) + profile_sources(
                seq_views(old(sources)@),
                views(item_ids@),
                profile_refs(item_profiles@),
            ),
    {
        let known = clone_sources(sources);
        let ghost kv = seq_views(known@);
        let ghost start = seq_views(sources@);
        let ghost iv = views(item_ids@);
        let ghost pv = profile_refs(item_profiles@);
        let mut i: usize = 0;
        while i < item_ids.len()
            invariant
                kv == seq_views(known@),
                kv == start,
                iv == views(item_ids@),
                pv == profile_refs(item_profiles@),
                i <= iv.len(),
                seq_views(sources@) == start + profile_sources(kv, iv.subrange(0, i as int), pv),
            decreases iv.len() - i,
        {
            assert(iv.subrange(0, i + 1).drop_last() =~= iv.subrange(0, i as int));
            assert(iv[i as int] == item_ids@[i as int]@);
            let id = item_ids[i].as_str();
            match find_profile(item_profiles, id) {
                Some(profile) => {
                    if !profile.conflict_group.as_str().is_empty() && !has_pair(
                        &known,
                        id,
                        profile.conflict_group.as_str(),
                    ) {
                        let src = EffectSource {
                            source_type: owned("item"),
                            source_id: owned(id),
                            source_name: profile.name.clone(),
                            group_id: profile.conflict_group.clone(),
                            coverage: CoverageType::Unknown,
                            weight: 100,
                        };
                        let ghost before = seq_views(sources@);
                        sources.push(src);
                        assert(seq_views(sources@) =~= before.push(src@));
                    }
                },
                None => {},
            }
            i = i + 1;
        }
        assert(iv.subrange(0, i as int) =~= iv);
    }

    /// The team report of a list of items in a calm matchup: the sources the
    /// conflict groups list for them, plus the conflict groups their
    /// profiles name.
    pub fn detect_team_conflicts(&self, item_ids: &[String], item_profiles: &[&ItemValueProfile]) -> (r:
        TeamConflictReport)
        requires
            self.well_formed(),
            warnings_fit(
                self.groups_view(),
                self.values_view(),
                self.modifiers_view(),
                team_sources(self.groups_view(), views(item_ids@), profile_refs(item_profiles@)),
                calm_environment(),
            ),
            penalties_fit(
                self.groups_view(),
                self.values_view(),
                self.modifiers_view(),
                team_sources(self.groups_view(), views(item_ids@), profile_refs(item_profiles@)),
                calm_environment(),
            ),
        ensures
            exists|w: Seq<WarningView>|
                warnings_match(
                    self.groups_view(),
                    self.values_view(),
                    self.modifiers_view(),
                    team_sources(self.groups_view(), views(item_ids@), profile_refs(item_profiles@)),
                    calm_environment(),
                    w,
                ) && report_matches(
                    self.groups_view(),
                    team_sources(self.groups_view(), views(item_ids@), profile_refs(item_profiles@)),
                    w,
                    r@,
                ),
    {
        let mut sources = self.sources_from_item_ids(item_ids);
        Self::add_profile_sources(&mut sources, item_ids, item_profiles);
        let env = ConflictEnvironment {
            opponent_heal_heavy: false,
            opponent_frontline_thick: false,
            opponent_burst_heavy: false,
            own_ap_heavy: false,
            own_ad_heavy: false,
        };
        self.detect_source_conflicts(sources.as_slice(), &env)
    }
}

} // verus!
