//! Team-wide effect coverage: which conflict groups the team's sources cover,
//! how well, which are missing, and which items repeat an effect.
use vstd::prelude::*;
use crate::item_conflict_scorer::{
    clone_group_table, distinct_group_ids, first_occurrences, gid_list, group_labels, groups_well_formed,
    first_profile, seq_views, source_label, tally_group, CoverageType, EffectSource, GroupView, ItemConflictGroup,
    ItemConflictGroups, SourceView,
};
use crate::knowledge_types::{AugmentEffectProfile, ChampionCapability, ItemValueProfile, TraitEffectProfile};
use crate::keyed::{first_key, lemma_lookup_absent, lemma_lookup_first, lookup, table_view};
use crate::order::is_permutation;
use crate::ranking::{stable_order, stably_sorted, Key3};
use crate::text::{cat, has_sub, join, joined, list_has, owned, push_str, str_contains, str_eq, views};

verus! {

/// Checks a team's effect coverage against the conflict groups.
pub struct TeamEffectCoverage {
    pub conflict_groups: Vec<(String, ItemConflictGroup)>,
}

/// A covered group.
#[derive(Debug, Clone)]
pub struct CoveredGroup {
    pub group_id: String,
    pub label: String,
    pub source_count: usize,
    pub total_weight: i32,
    pub coverage_quality: String,
    pub primary_source: String,
}

/// A group no source covers.
#[derive(Debug, Clone)]
pub struct UncoveredGroup {
    pub group_id: String,
    pub label: String,
    pub recommendation: String,
}

/// The coverage of a team.
#[derive(Debug, Clone)]
pub struct TeamCoverageReport {
    pub covered: Vec<CoveredGroup>,
    pub uncovered: Vec<UncoveredGroup>,
    pub conflict_summary: String,
    pub summary: String,
    pub total_sources: usize,
}

pub struct CoveredView {
    pub group_id: Seq<char>,
    pub label: Seq<char>,
    pub source_count: int,
    pub total_weight: int,
    pub coverage_quality: Seq<char>,
    pub primary_source: Seq<char>,
}

impl View for CoveredGroup {
    type V = CoveredView;

    open spec fn view(&self) -> CoveredView {
        CoveredView {
            group_id: self.group_id@,
            label: self.label@,
            source_count: self.source_count as int,
            total_weight: self.total_weight as int,
            coverage_quality: self.coverage_quality@,
            primary_source: self.primary_source@,
        }
    }
}

pub struct UncoveredView {
    pub group_id: Seq<char>,
    pub label: Seq<char>,
    pub recommendation: Seq<char>,
}

impl View for UncoveredGroup {
    type V = UncoveredView;

    open spec fn view(&self) -> UncoveredView {
        UncoveredView { group_id: self.group_id@, label: self.label@, recommendation: self.recommendation@ }
    }
}

pub struct CoverageReportView {
    pub covered: Seq<CoveredView>,
    pub uncovered: Seq<UncoveredView>,
    pub conflict_summary: Seq<char>,
    pub summary: Seq<char>,
    pub total_sources: int,
}

impl View for TeamCoverageReport {
    type V = CoverageReportView;

    open spec fn view(&self) -> CoverageReportView {
        CoverageReportView {
            covered: seq_views(self.covered@),
            uncovered: seq_views(self.uncovered@),
            conflict_summary: self.conflict_summary@,
            summary: self.summary@,
            total_sources: self.total_sources as int,
        }
    }
}

// ---------------------------------------------------------------------------
// Tags and recommendations
// ---------------------------------------------------------------------------

/// The conflict group an effect tag names.
pub open spec fn tag_group(tag: Seq<char>) -> Option<Seq<char>> {
    if tag == "anti_heal"@ || tag == "重伤"@ || tag == "减疗"@ || tag == "治疗降低"@ {
        Some("anti_heal"@)
    } else if tag == "burn"@ || tag == "灼烧"@ || tag == "燃烧"@ {
        Some("burn"@)
    } else if tag == "armor_shred"@ || tag == "护甲击碎"@ || tag == "降低护甲"@ || tag == "破甲"@ {
        Some("armor_shred"@)
    } else if tag == "mr_shred"@ || tag == "魔抗击碎"@ || tag == "降低魔抗"@ {
        Some("mr_shred"@)
    } else if tag == "mana_engine"@ || tag == "回蓝"@ || tag == "法力值回复"@ || tag == "启动"@ {
        Some("mana_engine"@)
    } else if tag == "crit_enable"@ || tag == "暴击"@ || tag == "技能暴击"@ {
        Some("crit_enable"@)
    } else if tag == "sustain"@ || tag == "吸血"@ || tag == "全能吸血"@ || tag == "回复"@ {
        Some("sustain"@)
    } else if tag == "shield_survival"@ || tag == "护盾"@ || tag == "保命"@ || tag == "夜刃"@ {
        Some("shield_survival"@)
    } else if tag == "aura_team_buff"@ || tag == "光环"@ || tag == "团队"@ {
        Some("aura_team_buff"@)
    } else if tag == "unique_trigger"@ {
        Some("unique_trigger"@)
    } else {
        None
    }
}

fn is_one_of(tag: &str, a: &str, b: &str, c: &str, d: &str) -> (r: bool)
    ensures
        r == (tag@ == a@ || tag@ == b@ || tag@ == c@ || tag@ == d@),
{
    str_eq(tag, a) || str_eq(tag, b) || str_eq(tag, c) || str_eq(tag, d)
}

/// How a missing group can be obtained.
pub open spec fn recommendation_text(gid: Seq<char>) -> Seq<char> {
    if gid == "anti_heal"@ {
        "推荐合成日炎、红霸符或鬼书"@
    } else if gid == "burn"@ {
        "推荐合成日炎或红霸符"@
    } else if gid == "armor_shred"@ {
        "AD阵容推荐合成轻语或薄暮"@
    } else if gid == "mr_shred"@ {
        "AP阵容推荐合成离子火花或虚空之杖"@
    } else if gid == "mana_engine"@ {
        "法系主C推荐合成青龙刀或蓝霸符"@
    } else if gid == "crit_enable"@ {
        "暴击流主C推荐合成无尽或法爆"@
    } else if gid == "sustain"@ {
        "前排/主C推荐合成饮血或科技枪"@
    } else if gid == "shield_survival"@ {
        "防爆发推荐合成夜刃或血手"@
    } else if gid == "aura_team_buff"@ {
        "辅助棋子推荐携带圣杯、旗子等团队装"@
    } else if gid == "unique_trigger"@ {
        "每场战斗仅触发1次的装备避免重复带在同一棋子"@
    } else {
        "未收录推荐，请参考 "@ + gid + " 组"@
    }
}

fn recommend_for_coverage(gid: &str) -> (r: String)
    ensures
        r@ == recommendation_text(gid@),
{
    if str_eq(gid, "anti_heal") {
        owned("推荐合成日炎、红霸符或鬼书")
    } else if str_eq(gid, "burn") {
        owned("推荐合成日炎或红霸符")
    } else if str_eq(gid, "armor_shred") {
        owned("AD阵容推荐合成轻语或薄暮")
    } else if str_eq(gid, "mr_shred") {
        owned("AP阵容推荐合成离子火花或虚空之杖")
    } else if str_eq(gid, "mana_engine") {
        owned("法系主C推荐合成青龙刀或蓝霸符")
    } else if str_eq(gid, "crit_enable") {
        owned("暴击流主C推荐合成无尽或法爆")
    } else if str_eq(gid, "sustain") {
        owned("前排/主C推荐合成饮血或科技枪")
    } else if str_eq(gid, "shield_survival") {
        owned("防爆发推荐合成夜刃或血手")
    } else if str_eq(gid, "aura_team_buff") {
        owned("辅助棋子推荐携带圣杯、旗子等团队装")
    } else if str_eq(gid, "unique_trigger") {
        owned("每场战斗仅触发1次的装备避免重复带在同一棋子")
    } else {
        let mut r = cat("未收录推荐，请参考 ", gid);
        push_str(&mut r, " 组");
        r
    }
}

// ---------------------------------------------------------------------------
// The report, as values
// ---------------------------------------------------------------------------

/// Sum of the weights of the sources of group `gid`.
pub open spec fn weight_sum(s: Seq<SourceView>, gid: Seq<char>) -> int
    decreases s.len(),
{
    if s.len() == 0 {
        0
    } else {
        weight_sum(s.drop_last(), gid) + if s.last().group_id == gid {
            s.last().weight as int
        } else {
            0int
        }
    }
}

/// Every running weight sum of every group stays within `i32`.
pub open spec fn weights_fit(s: Seq<SourceView>) -> bool {
    forall|gid: Seq<char>, n: int|
        0 <= n <= s.len() ==> i32::MIN <= #[trigger] weight_sum(s.take(n), gid) <= i32::MAX
}

/// Coverage quality for a total weight.
pub open spec fn quality_text(w: int) -> Seq<char> {
    if w >= 180 {
        "充分覆盖"@
    } else if w >= 100 {
        "基本覆盖"@
    } else {
        "部分覆盖"@
    }
}

/// The label of a group, or its id when it is not configured.
pub open spec fn label_or_id(groups: Seq<(Seq<char>, GroupView)>, gid: Seq<char>) -> Seq<char> {
    match lookup(groups, gid) {
        Some(g) => g.label,
        None => gid,
    }
}

/// The entry of a covered group.
pub open spec fn covered_entry(groups: Seq<(Seq<char>, GroupView)>, s: Seq<SourceView>, gid: Seq<char>) -> CoveredView {
    CoveredView {
        group_id: gid,
        label: label_or_id(groups, gid),
        source_count: crate::item_conflict_scorer::count_group(s, gid) as int,
        total_weight: weight_sum(s, gid),
        coverage_quality: quality_text(weight_sum(s, gid)),
        primary_source: group_labels(s, gid)[0],
    }
}

/// Covered groups in order of first appearance.
pub open spec fn covered_in_order(groups: Seq<(Seq<char>, GroupView)>, s: Seq<SourceView>) -> Seq<CoveredView> {
    first_occurrences(gid_list(s)).map_values(|gid: Seq<char>| covered_entry(groups, s, gid))
}

/// Sort key: heavier groups first.
pub open spec fn weight_key(c: CoveredView) -> Key3 {
    (-c.total_weight as i64, 0i64, 0i64)
}

/// `sorted` is `c` by decreasing total weight, equal weights in their order.
pub open spec fn by_weight(c: Seq<CoveredView>, sorted: Seq<CoveredView>) -> bool {
    exists|idx: Seq<usize>|
        is_permutation(idx, c.len()) && stably_sorted(c.map_values(|x: CoveredView| weight_key(x)), idx)
            && sorted.len() == c.len() && forall|i: int| 0 <= i < sorted.len() ==> #[trigger] sorted[i]
            == c[idx[i] as int]
}

/// The configured groups no source covers, in table order.
pub open spec fn uncovered_of(t: Seq<(Seq<char>, GroupView)>, s: Seq<SourceView>) -> Seq<UncoveredView>
    decreases t.len(),
{
    if t.len() == 0 {
        seq![]
    } else {
        let p = uncovered_of(t.drop_last(), s);
        let k = t.last().0;
        if gid_list(s).contains(k) {
            p
        } else {
            p.push(UncoveredView { group_id: k, label: t.last().1.label, recommendation: recommendation_text(k) })
        }
    }
}

/// Group ids of the item sources, in order.
pub open spec fn item_gids(s: Seq<SourceView>) -> Seq<Seq<char>>
    decreases s.len(),
{
    if s.len() == 0 {
        seq![]
    } else {
        let p = item_gids(s.drop_last());
        if s.last().source_type == "item"@ {
            p.push(s.last().group_id)
        } else {
            p
        }
    }
}

/// Names of the item sources of group `gid`, in order.
pub open spec fn item_names(s: Seq<SourceView>, gid: Seq<char>) -> Seq<Seq<char>>
    decreases s.len(),
{
    if s.len() == 0 {
        seq![]
    } else {
        let p = item_names(s.drop_last(), gid);
        if s.last().source_type == "item"@ && s.last().group_id == gid {
            p.push(s.last().source_name)
        } else {
            p
        }
    }
}

/// `[group]: a+b` for each group of `gl` with more than one item.
pub open spec fn conflict_lines(s: Seq<SourceView>, gl: Seq<Seq<char>>) -> Seq<Seq<char>>
    decreases gl.len(),
{
    if gl.len() == 0 {
        seq![]
    } else {
        let p = conflict_lines(s, gl.drop_last());
        let names = item_names(s, gl.last());
        if names.len() > 1 {
            p.push("["@ + gl.last() + "]: "@ + joined(names, "+"@))
        } else {
            p
        }
    }
}

/// Repeated item effects, listed only when more than one item is equipped.
pub open spec fn conflict_summary_text(s: Seq<SourceView>, equipped: int) -> Seq<char> {
    if equipped > 1 {
        joined(conflict_lines(s, first_occurrences(item_gids(s))), "; "@)
    } else {
        seq![]
    }
}

/// The one-line summary of a report.
pub open spec fn summary_text(c: Seq<CoveredView>, u: Seq<UncoveredView>, conflicts: Seq<char>) -> Seq<char> {
    if c.len() == 0 {
        "队伍无明确效果覆盖"@
    } else {
        let first = "已覆盖: "@ + joined(
            c.map_values(|x: CoveredView| x.label + "("@ + x.coverage_quality + ")"@),
            ", "@,
        );
        let with_uncovered = if u.len() > 0 {
            seq![first, "未覆盖: "@ + joined(u.map_values(|x: UncoveredView| x.label), ", "@)]
        } else {
            seq![first]
        };
        let parts = if conflicts.len() > 0 {
            with_uncovered.push("装备冲突: "@ + conflicts)
        } else {
            with_uncovered
        };
        joined(parts, " | "@)
    }
}

/// `r` is the coverage report of sources `s` with `equipped` items equipped.
pub open spec fn report_of(
    groups: Seq<(Seq<char>, GroupView)>,
    s: Seq<SourceView>,
    equipped: int,
    r: CoverageReportView,
) -> bool {
    &&& by_weight(covered_in_order(groups, s), r.covered)
    &&& r.uncovered == uncovered_of(groups, s)
    &&& r.conflict_summary == conflict_summary_text(s, equipped)
    &&& r.summary == summary_text(r.covered, r.uncovered, r.conflict_summary)
    &&& r.total_sources == s.len()
}

proof fn lemma_first_occurrences(k: Seq<Seq<char>>)
    ensures
        forall|i: int, j: int|
            0 <= i < j < first_occurrences(k).len() ==> first_occurrences(k)[i] != first_occurrences(k)[j],
        forall|x: Seq<char>| first_occurrences(k).contains(x) <==> k.contains(x),
    decreases k.len(),
{
    if k.len() > 0 {
        lemma_first_occurrences(k.drop_last());
        let p = first_occurrences(k.drop_last());
        assert forall|x: Seq<char>| first_occurrences(k).contains(x) <==> (p.contains(x) || x == k.last()) by {
            if !p.contains(k.last()) {
                let f = p.push(k.last());
                if f.contains(x) {
                    let i = choose|i: int| 0 <= i < f.len() && f[i] == x;
                    if i < p.len() {
                        assert(p[i] == x);
                    }
                }
                if p.contains(x) {
                    let i = choose|i: int| 0 <= i < p.len() && p[i] == x;
                    assert(f[i] == x);
                }
                assert(f[p.len() as int] == k.last());
            }
        }
        assert forall|x: Seq<char>| k.contains(x) <==> (k.drop_last().contains(x) || x == k.last()) by {
            if k.contains(x) {
                let i = choose|i: int| 0 <= i < k.len() && k[i] == x;
                if i < k.len() - 1 {
                    assert(k.drop_last()[i] == x);
                }
            }
            if k.drop_last().contains(x) {
                let i = choose|i: int| 0 <= i < k.drop_last().len() && k.drop_last()[i] == x;
                assert(k[i] == x);
            }
            if x == k.last() {
                assert(k[k.len() - 1] == x);
            }
        }
    }
}

proof fn lemma_uncovered_id(t: Seq<(Seq<char>, GroupView)>, s: Seq<SourceView>, g: Seq<char>)
    ensures
        (exists|i: int| 0 <= i < uncovered_of(t, s).len() && #[trigger] uncovered_of(t, s)[i].group_id == g)
            <==> ((exists|k: int| 0 <= k < t.len() && #[trigger] t[k].0 == g) && !gid_list(s).contains(g)),
    decreases t.len(),
{
    if t.len() > 0 {
        lemma_uncovered_id(t.drop_last(), s, g);
        let p = uncovered_of(t.drop_last(), s);
        let u = uncovered_of(t, s);
        if exists|k: int| 0 <= k < t.len() && #[trigger] t[k].0 == g {
            let k = choose|k: int| 0 <= k < t.len() && #[trigger] t[k].0 == g;
            if k < t.len() - 1 {
                assert(t.drop_last()[k].0 == g);
            }
        }
        if exists|k: int| 0 <= k < t.drop_last().len() && #[trigger] t.drop_last()[k].0 == g {
            let k = choose|k: int| 0 <= k < t.drop_last().len() && #[trigger] t.drop_last()[k].0 == g;
            assert(t[k].0 == g);
        }
        if exists|i: int| 0 <= i < p.len() && #[trigger] p[i].group_id == g {
            let i = choose|i: int| 0 <= i < p.len() && #[trigger] p[i].group_id == g;
            assert(u[i].group_id == g);
        }
        if exists|i: int| 0 <= i < u.len() && #[trigger] u[i].group_id == g {
            let i = choose|i: int| 0 <= i < u.len() && #[trigger] u[i].group_id == g;
            if i < p.len() {
                assert(p[i].group_id == g);
            } else {
                assert(t[t.len() - 1].0 == g);
            }
        }
        if !gid_list(s).contains(t.last().0) && t.last().0 == g {
            assert(u[p.len() as int].group_id == g);
        }
    }
}

/// The coverage report lists each group that some source covers exactly once,
/// with its source count, its total weight and the quality that weight earns
/// (180 and up: full, 100 and up: basic, else partial), heaviest first; it
/// lists as uncovered exactly the configured groups that no source covers; it
/// counts every source; and its summary says the team covers nothing exactly
/// when there are no sources.
pub proof fn lemma_coverage_report(
    groups: Seq<(Seq<char>, GroupView)>,
    s: Seq<SourceView>,
    equipped: int,
    r: CoverageReportView,
)
    requires
        weights_fit(s),
        report_of(groups, s, equipped, r),
    ensures
        forall|i: int, j: int|
            0 <= i < j < r.covered.len() ==> r.covered[i].group_id != r.covered[j].group_id,
        forall|g: Seq<char>|
            gid_list(s).contains(g) <==> exists|i: int| 0 <= i < r.covered.len() && #[trigger] r.covered[i].group_id == g,
        forall|i: int|
            0 <= i < r.covered.len() ==> {
                let c = #[trigger] r.covered[i];
                &&& c.source_count == crate::item_conflict_scorer::count_group(s, c.group_id)
                &&& c.total_weight == weight_sum(s, c.group_id)
                &&& c.coverage_quality == quality_text(c.total_weight)
            },
        forall|i: int, j: int|
            0 <= i < j < r.covered.len() ==> r.covered[i].total_weight >= r.covered[j].total_weight,
        forall|i: int|
            0 <= i < r.uncovered.len() ==> !gid_list(s).contains(#[trigger] r.uncovered[i].group_id) && exists|k: int|
                0 <= k < groups.len() && groups[k].0 == r.uncovered[i].group_id,
        forall|k: int|
            0 <= k < groups.len() && !gid_list(s).contains(#[trigger] groups[k].0) ==> exists|i: int|
                0 <= i < r.uncovered.len() && r.uncovered[i].group_id == groups[k].0,
        r.total_sources == s.len(),
        s.len() == 0 <==> r.summary == "队伍无明确效果覆盖"@,
{
    assert forall|i: int| 0 <= i < r.uncovered.len() implies !gid_list(s).contains(#[trigger] r.uncovered[i].group_id)
        && exists|k: int| 0 <= k < groups.len() && groups[k].0 == r.uncovered[i].group_id by {
        lemma_uncovered_id(groups, s, r.uncovered[i].group_id);
    }
    assert forall|k: int| 0 <= k < groups.len() && !gid_list(s).contains(#[trigger] groups[k].0) implies exists|i: int|
        0 <= i < r.uncovered.len() && r.uncovered[i].group_id == groups[k].0 by {
        lemma_uncovered_id(groups, s, groups[k].0);
    }
    let gl = gid_list(s);
    let fo = first_occurrences(gl);
    let c = covered_in_order(groups, s);
    lemma_first_occurrences(gl);
    let idx = choose|idx: Seq<usize>|
        is_permutation(idx, c.len()) && stably_sorted(c.map_values(|x: CoveredView| weight_key(x)), idx)
            && r.covered.len() == c.len() && forall|i: int| 0 <= i < r.covered.len() ==> #[trigger] r.covered[i]
            == c[idx[i] as int];
    let keys = c.map_values(|x: CoveredView| weight_key(x));
    assert(s.take(s.len() as int) =~= s);
    assert forall|i: int, j: int| 0 <= i < j < r.covered.len() implies r.covered[i].group_id
        != r.covered[j].group_id by {
        assert(r.covered[i] == c[idx[i] as int]);
        assert(r.covered[j] == c[idx[j] as int]);
        if idx[i] < idx[j] {
            assert(fo[idx[i] as int] != fo[idx[j] as int]);
        } else {
            assert(fo[idx[j] as int] != fo[idx[i] as int]);
        }
    }
    assert forall|g: Seq<char>| gl.contains(g) implies exists|i: int|
        0 <= i < r.covered.len() && #[trigger] r.covered[i].group_id == g by {
        assert(fo.contains(g));
        let q = choose|q: int| 0 <= q < fo.len() && fo[q] == g;
        assert(crate::order::occurs(idx, q));
        let i = choose|i: int| 0 <= i < idx.len() && idx[i] == q;
        assert(r.covered[i] == c[q]);
        assert(c[q] == covered_entry(groups, s, fo[q]));
        assert(r.covered[i].group_id == g);
    }
    assert forall|g: Seq<char>| (exists|i: int| 0 <= i < r.covered.len() && #[trigger] r.covered[i].group_id == g)
        implies gl.contains(g) by {
        let i = choose|i: int| 0 <= i < r.covered.len() && #[trigger] r.covered[i].group_id == g;
        assert(r.covered[i] == c[idx[i] as int]);
        assert(fo.contains(fo[idx[i] as int]));
    }
    assert forall|i: int| 0 <= i < r.covered.len() implies {
        let x = #[trigger] r.covered[i];
        &&& x.source_count == crate::item_conflict_scorer::count_group(s, x.group_id)
        &&& x.total_weight == weight_sum(s, x.group_id)
        &&& x.coverage_quality == quality_text(x.total_weight)
    } by {
        assert(r.covered[i] == c[idx[i] as int]);
    }
    assert forall|i: int, j: int| 0 <= i < j < r.covered.len() implies r.covered[i].total_weight
        >= r.covered[j].total_weight by {
        assert(r.covered[i] == c[idx[i] as int]);
        assert(r.covered[j] == c[idx[j] as int]);
        assert(crate::ranking::comes_before(keys, idx[i] as int, idx[j] as int));
        let wi = weight_sum(s, fo[idx[i] as int]);
        let wj = weight_sum(s, fo[idx[j] as int]);
        assert(i32::MIN <= weight_sum(s.take(s.len() as int), fo[idx[i] as int]) <= i32::MAX);
        assert(i32::MIN <= weight_sum(s.take(s.len() as int), fo[idx[j] as int]) <= i32::MAX);
        assert(keys[idx[i] as int] == weight_key(c[idx[i] as int]));
        assert(keys[idx[j] as int] == weight_key(c[idx[j] as int]));
    }
    reveal_strlit("队伍无明确效果覆盖");
    reveal_strlit("已覆盖: ");
    if s.len() > 0 {
        assert(gl.contains(gl[0]));
        assert(fo.len() > 0);
        let first = "已覆盖: "@ + joined(
            r.covered.map_values(|x: CoveredView| x.label + "("@ + x.coverage_quality + ")"@),
            ", "@,
        );
        let with_uncovered = if r.uncovered.len() > 0 {
            seq![first, "未覆盖: "@ + joined(r.uncovered.map_values(|x: UncoveredView| x.label), ", "@)]
        } else {
            seq![first]
        };
        let parts = if r.conflict_summary.len() > 0 {
            with_uncovered.push("装备冲突: "@ + r.conflict_summary)
        } else {
            with_uncovered
        };
        assert(parts[0] == first);
        crate::text::lemma_joined_starts(parts, " | "@);
        assert(r.summary[0] == first[0]);
        assert(first[0] == '已');
    } else {
        assert(fo =~= Seq::<Seq<char>>::empty());
    }
}

// ---------------------------------------------------------------------------
// Exec
// ---------------------------------------------------------------------------

fn group_weight(sources: &[EffectSource], gid: &str) -> (w: i32)
    requires
        weights_fit(seq_views(sources@)),
    ensures
        w == weight_sum(seq_views(sources@), gid@),
{
    let ghost sv = seq_views(sources@);
    let mut w: i32 = 0;
    let mut i: usize = 0;
    while i < sources.len()
        invariant
            sv == seq_views(sources@),
            weights_fit(sv),
            i <= sv.len(),
            w == weight_sum(sv.take(i as int), gid@),
        decreases sv.len() - i,
    {
        assert(sv.take(i + 1).drop_last() =~= sv.take(i as int));
        assert(sv.take(i + 1).last() == sources@[i as int]@);
        assert(i32::MIN <= weight_sum(sv.take(i + 1), gid@) <= i32::MAX);
        if str_eq(sources[i].group_id.as_str(), gid) {
            w = w + sources[i].weight;
        }
        i = i + 1;
    }
    assert(sv.take(i as int) =~= sv);
    w
}

fn quality_of(w: i32) -> (r: String)
    ensures
        r@ == quality_text(w as int),
{
    if w >= 180 {
        owned("充分覆盖")
    } else if w >= 100 {
        owned("基本覆盖")
    } else {
        owned("部分覆盖")
    }
}

fn clone_covered(c: &CoveredGroup) -> (r: CoveredGroup)
    ensures
        r@ == c@,
{
    CoveredGroup {
        group_id: c.group_id.clone(),
        label: c.label.clone(),
        source_count: c.source_count,
        total_weight: c.total_weight,
        coverage_quality: c.coverage_quality.clone(),
        primary_source: c.primary_source.clone(),
    }
}

proof fn lemma_count_positive_when_listed(s: Seq<SourceView>, gid: Seq<char>)
    requires
        gid_list(s).contains(gid),
    ensures
        crate::item_conflict_scorer::count_group(s, gid) > 0,
        group_labels(s, gid).len() > 0,
    decreases s.len(),
{
    let j = choose|j: int| 0 <= j < gid_list(s).len() && gid_list(s)[j] == gid;
    if s.last().group_id != gid {
        assert(gid_list(s.drop_last())[j] == gid);
        lemma_count_positive_when_listed(s.drop_last(), gid);
    }
}

/// Members of `first_occurrences(k)` occur in `k`.
proof fn lemma_first_occurrences_in(k: Seq<Seq<char>>, i: int)
    requires
        0 <= i < first_occurrences(k).len(),
    ensures
        k.contains(first_occurrences(k)[i]),
    decreases k.len(),
{
    let p = first_occurrences(k.drop_last());
    if i < p.len() {
        lemma_first_occurrences_in(k.drop_last(), i);
        let j = choose|j: int| 0 <= j < k.drop_last().len() && k.drop_last()[j] == p[i];
        assert(k[j] == p[i]);
    } else {
        assert(k[k.len() - 1] == k.last());
    }
}

impl TeamEffectCoverage {
    pub open spec fn groups_view(&self) -> Seq<(Seq<char>, GroupView)> {
        table_view(self.conflict_groups@)
    }

    /// A checker over the given conflict groups.
    pub fn new(groups_config: &ItemConflictGroups) -> (c: Self)
        ensures
            c.groups_view() == table_view(groups_config.groups@),
    {
        TeamEffectCoverage { conflict_groups: clone_group_table(&groups_config.groups) }
    }

    /// The conflict group an effect tag names.
    pub fn map_tag_to_group(&self, tag: &str) -> (r: Option<String>)
        ensures
            match r {
                Some(g) => tag_group(tag@) == Some(g@),
                None => tag_group(tag@) is None,
            },
    {
        if is_one_of(tag, "anti_heal", "重伤", "减疗", "治疗降低") {
            Some(owned("anti_heal"))
        } else if is_one_of(tag, "burn", "灼烧", "燃烧", "燃烧") {
            Some(owned("burn"))
        } else if is_one_of(tag, "armor_shred", "护甲击碎", "降低护甲", "破甲") {
            Some(owned("armor_shred"))
        } else if is_one_of(tag, "mr_shred", "魔抗击碎", "降低魔抗", "降低魔抗") {
            Some(owned("mr_shred"))
        } else if is_one_of(tag, "mana_engine", "回蓝", "法力值回复", "启动") {
            Some(owned("mana_engine"))
        } else if is_one_of(tag, "crit_enable", "暴击", "技能暴击", "技能暴击") {
            Some(owned("crit_enable"))
        } else if is_one_of(tag, "sustain", "吸血", "全能吸血", "回复") {
            Some(owned("sustain"))
        } else if is_one_of(tag, "shield_survival", "护盾", "保命", "夜刃") {
            Some(owned("shield_survival"))
        } else if is_one_of(tag, "aura_team_buff", "光环", "团队", "团队") {
            Some(owned("aura_team_buff"))
        } else if str_eq(tag, "unique_trigger") {
            Some(owned("unique_trigger"))
        } else {
            None
        }
    }

    fn label_for(&self, gid: &str) -> (r: String)
        ensures
            r@ == label_or_id(self.groups_view(), gid@),
    {
        let ghost t = self.groups_view();
        match first_key(&self.conflict_groups, gid) {
            Some(i) => {
                proof {
                    assert forall|j: int| 0 <= j < i implies t[j].0 != t[i as int].0 by {
                        assert(t[j].0 == self.conflict_groups@[j].0@);
                    }
                    lemma_lookup_first(t, i as int);
                }
                self.conflict_groups[i].1.label.clone()
            },
            None => {
                proof {
                    assert forall|j: int| 0 <= j < t.len() implies t[j].0 != gid@ by {
                        assert(t[j].0 == self.conflict_groups@[j].0@);
                    }
                    lemma_lookup_absent(t, gid@);
                }
                owned(gid)
            },
        }
    }

    /// Covered groups in order of first appearance.
    fn covered_unsorted(&self, sources: &[EffectSource]) -> (c: Vec<CoveredGroup>)
        requires
            weights_fit(seq_views(sources@)),
        ensures
            seq_views(c@) == covered_in_order(self.groups_view(), seq_views(sources@)),
    {
        let ghost sv = seq_views(sources@);
        let ids = distinct_group_ids(sources);
        let ghost idv = views(ids@);
        let mut c: Vec<CoveredGroup> = Vec::new();
        let mut k: usize = 0;
        while k < ids.len()
            invariant
                sv == seq_views(sources@),
                weights_fit(sv),
                idv == views(ids@),
                idv == first_occurrences(gid_list(sv)),
                k <= idv.len(),
                seq_views(c@) == idv.subrange(0, k as int).map_values(
                    |gid: Seq<char>| covered_entry(self.groups_view(), sv, gid),
                ),
            decreases idv.len() - k,
        {
            let gid = ids[k].as_str();
            proof {
                lemma_first_occurrences_in(gid_list(sv), k as int);
                lemma_count_positive_when_listed(sv, idv[k as int]);
            }
            let (count, _kinds, labels) = tally_group(sources, gid);
            let w = group_weight(sources, gid);
            let e = CoveredGroup {
                group_id: owned(gid),
                label: self.label_for(gid),
                source_count: count,
                total_weight: w,
                coverage_quality: quality_of(w),
                primary_source: labels[0].clone(),
            };
            let ghost before = seq_views(c@);
            proof {
                assert(views(labels@)[0] == labels@[0]@);
                assert(e@ == covered_entry(self.groups_view(), sv, idv[k as int]));
            }
            c.push(e);
            k = k + 1;
            proof {
                assert(seq_views(c@) =~= before.push(e@));
                assert(seq_views(c@) =~= idv.subrange(0, k as int).map_values(
                    |gid: Seq<char>| covered_entry(self.groups_view(), sv, gid),
                ));
            }
        }
        assert(idv.subrange(0, k as int) =~= idv);
        c
    }

    /// Configured groups no source covers.
    fn uncovered_groups(&self, sources: &[EffectSource]) -> (u: Vec<UncoveredGroup>)
        ensures
            seq_views(u@) == uncovered_of(self.groups_view(), seq_views(sources@)),
    {
        let ghost sv = seq_views(sources@);
        let ghost t = self.groups_view();
        let ids = distinct_group_ids(sources);
        let mut u: Vec<UncoveredGroup> = Vec::new();
        let mut g: usize = 0;
        while g < self.conflict_groups.len()
            invariant
                sv == seq_views(sources@),
                t == self.groups_view(),
                g <= t.len(),
                forall|x: Seq<char>| views(ids@).contains(x) <==> gid_list(sv).contains(x),
                seq_views(u@) == uncovered_of(t.subrange(0, g as int), sv),
            decreases t.len() - g,
        {
            let ghost nxt = t.subrange(0, g + 1);
            assert(nxt.drop_last() =~= t.subrange(0, g as int));
            assert(nxt.last() == t[g as int]);
            assert(t[g as int].0 == self.conflict_groups@[g as int].0@);
            assert(t[g as int].1 == self.conflict_groups@[g as int].1@);
            let key = self.conflict_groups[g].0.as_str();
            if !list_has(&ids, key) {
                let e = UncoveredGroup {
                    group_id: owned(key),
                    label: self.conflict_groups[g].1.label.clone(),
                    recommendation: recommend_for_coverage(key),
                };
                let ghost before = seq_views(u@);
                u.push(e);
                assert(seq_views(u@) =~= before.push(e@));
            }
            g = g + 1;
        }
        assert(t.subrange(0, g as int) =~= t);
        u
    }

    /// The coverage report of a team's sources.
    pub fn build_coverage_report(&self, sources: &[EffectSource], equipped_item_ids: &[String]) -> (r:
        TeamCoverageReport)
        requires
            weights_fit(seq_views(sources@)),
        ensures
            report_of(self.groups_view(), seq_views(sources@), equipped_item_ids@.len() as int, r@),
    {
        let ghost sv = seq_views(sources@);
        let unsorted = self.covered_unsorted(sources);
        let ghost cu = seq_views(unsorted@);
        let ghost kv = cu.map_values(|x: CoveredView| weight_key(x));
        let mut keys: Vec<Key3> = Vec::new();
        let mut i: usize = 0;
        while i < unsorted.len()
            invariant
                cu == seq_views(unsorted@),
                kv == cu.map_values(|x: CoveredView| weight_key(x)),
                i <= cu.len(),
                keys@ == kv.subrange(0, i as int),
            decreases cu.len() - i,
        {
            let k: Key3 = (-(unsorted[i].total_weight as i64), 0i64, 0i64);
            keys.push(k);
            assert(cu[i as int] == unsorted@[i as int]@);
            i = i + 1;
            assert(keys@ =~= kv.subrange(0, i as int));
        }
        assert(kv.subrange(0, i as int) =~= kv);
        let idx = stable_order(&keys);
        let mut covered: Vec<CoveredGroup> = Vec::new();
        let mut t: usize = 0;
        while t < idx.len()
            invariant
                cu == seq_views(unsorted@),
                is_permutation(idx@, cu.len()),
                t <= idx@.len(),
                covered@.len() == t,
                forall|q: int| 0 <= q < t ==> (#[trigger] covered@[q])@ == cu[idx@[q] as int],
            decreases idx@.len() - t,
        {
            covered.push(clone_covered(&unsorted[idx[t]]));
            t = t + 1;
        }
        proof {
            let cv = seq_views(covered@);
            assert forall|q: int| 0 <= q < cv.len() implies #[trigger] cv[q] == cu[idx@[q] as int] by {
                assert(cv[q] == covered@[q]@);
            }
            assert(by_weight(cu, cv));
        }
        let uncovered = self.uncovered_groups(sources);
        let conflict_summary = if equipped_item_ids.len() > 1 {
            conflict_summary_of(sources)
        } else {
            String::new()
        };
        let summary = summary_of(&covered, &uncovered, &conflict_summary);
        TeamCoverageReport { covered, uncovered, conflict_summary, summary, total_sources: sources.len() }
    }
}

/// `[group]: a+b; ...` over the groups with several item sources.
fn conflict_summary_of(sources: &[EffectSource]) -> (r: String)
    ensures
        r@ == joined(conflict_lines(seq_views(sources@), first_occurrences(item_gids(seq_views(sources@)))), "; "@),
{
    let ghost sv = seq_views(sources@);
    let mut gids: Vec<String> = Vec::new();
    let mut i: usize = 0;
    while i < sources.len()
        invariant
            sv == seq_views(sources@),
            i <= sv.len(),
            views(gids@) == first_occurrences(item_gids(sv.subrange(0, i as int))),
        decreases sv.len() - i,
    {
        let ghost pre = sv.subrange(0, i as int);
        let ghost nxt = sv.subrange(0, i + 1);
        assert(nxt.drop_last() =~= pre);
        assert(nxt.last() == sources@[i as int]@);
        if str_eq(sources[i].source_type.as_str(), "item") {
            assert(item_gids(nxt) == item_gids(pre).push(sources@[i as int].group_id@));
            assert(item_gids(nxt).drop_last() =~= item_gids(pre));
            if !list_has(&gids, sources[i].group_id.as_str()) {
                let ghost before = views(gids@);
                gids.push(sources[i].group_id.clone());
                assert(views(gids@) =~= before.push(sources@[i as int].group_id@));
            }
        }
        i = i + 1;
    }
    assert(sv.subrange(0, i as int) =~= sv);
    let ghost gv = views(gids@);
    let mut lines: Vec<String> = Vec::new();
    let mut k: usize = 0;
    while k < gids.len()
        invariant
            sv == seq_views(sources@),
            gv == views(gids@),
            k <= gv.len(),
            views(lines@) == conflict_lines(sv, gv.subrange(0, k as int)),
        decreases gv.len() - k,
    {
        let ghost nxt = gv.subrange(0, k + 1);
        assert(nxt.drop_last() =~= gv.subrange(0, k as int));
        assert(nxt.last() == gids@[k as int]@);
        let names = item_names_of(sources, gids[k].as_str());
        if names.len() > 1 {
            let mut line = cat("[", gids[k].as_str());
            push_str(&mut line, "]: ");
            let joined_names = join(&names, "+");
            push_str(&mut line, joined_names.as_str());
            let ghost before = views(lines@);
            lines.push(line);
            assert(views(lines@) =~= before.push(line@));
        }
        k = k + 1;
    }
    assert(gv.subrange(0, k as int) =~= gv);
    join(&lines, "; ")
}

fn item_names_of(sources: &[EffectSource], gid: &str) -> (r: Vec<String>)
    ensures
        views(r@) == item_names(seq_views(sources@), gid@),
{
    let ghost sv = seq_views(sources@);
    let mut r: Vec<String> = Vec::new();
    let mut i: usize = 0;
    while i < sources.len()
        invariant
            sv == seq_views(sources@),
            i <= sv.len(),
            views(r@) == item_names(sv.subrange(0, i as int), gid@),
        decreases sv.len() - i,
    {
        let ghost nxt = sv.subrange(0, i + 1);
        assert(nxt.drop_last() =~= sv.subrange(0, i as int));
        assert(nxt.last() == sources@[i as int]@);
        if str_eq(sources[i].source_type.as_str(), "item") && str_eq(sources[i].group_id.as_str(), gid) {
            let ghost before = views(r@);
            r.push(sources[i].source_name.clone());
            assert(views(r@) =~= before.push(sources@[i as int].source_name@));
        }
        i = i + 1;
    }
    assert(sv.subrange(0, i as int) =~= sv);
    r
}

fn summary_of(covered: &Vec<CoveredGroup>, uncovered: &Vec<UncoveredGroup>, conflicts: &String) -> (r: String)
    ensures
        r@ == summary_text(seq_views(covered@), seq_views(uncovered@), conflicts@),
{
    if covered.len() == 0 {
        return owned("队伍无明确效果覆盖");
    }
    let ghost cv = seq_views(covered@);
    let ghost uv = seq_views(uncovered@);
    let mut covered_labels: Vec<String> = Vec::new();
    let mut i: usize = 0;
    while i < covered.len()
        invariant
            cv == seq_views(covered@),
            i <= cv.len(),
            views(covered_labels@) == cv.subrange(0, i as int).map_values(
                |x: CoveredView| x.label + "("@ + x.coverage_quality + ")"@,
            ),
        decreases cv.len() - i,
    {
        let mut l = cat(covered[i].label.as_str(), "(");
        push_str(&mut l, covered[i].coverage_quality.as_str());
        push_str(&mut l, ")");
        let ghost before = views(covered_labels@);
        covered_labels.push(l);
        assert(cv[i as int] == covered@[i as int]@);
        assert(views(covered_labels@) =~= before.push(cv[i as int].label + "("@ + cv[i as int].coverage_quality + ")"@));
        assert(cv.subrange(0, i + 1).map_values(|x: CoveredView| x.label + "("@ + x.coverage_quality + ")"@) =~= cv.subrange(
            0,
            i as int,
        ).map_values(|x: CoveredView| x.label + "("@ + x.coverage_quality + ")"@).push(
            cv[i as int].label + "("@ + cv[i as int].coverage_quality + ")"@,
        ));
        i = i + 1;
        assert(views(covered_labels@) =~= cv.subrange(0, i as int).map_values(
            |x: CoveredView| x.label + "("@ + x.coverage_quality + ")"@,
        ));
    }
    assert(cv.subrange(0, i as int) =~= cv);
    let mut uncovered_labels: Vec<String> = Vec::new();
    let mut j: usize = 0;
    while j < uncovered.len()
        invariant
            uv == seq_views(uncovered@),
            j <= uv.len(),
            views(uncovered_labels@) == uv.subrange(0, j as int).map_values(|x: UncoveredView| x.label),
        decreases uv.len() - j,
    {
        let ghost before = views(uncovered_labels@);
        uncovered_labels.push(uncovered[j].label.clone());
        assert(uv[j as int] == uncovered@[j as int]@);
        assert(views(uncovered_labels@) =~= before.push(uv[j as int].label));
        assert(uv.subrange(0, j + 1).map_values(|x: UncoveredView| x.label) =~= uv.subrange(0, j as int).map_values(
            |x: UncoveredView| x.label,
        ).push(uv[j as int].label));
        j = j + 1;
        assert(views(uncovered_labels@) =~= uv.subrange(0, j as int).map_values(|x: UncoveredView| x.label));
    }
    assert(uv.subrange(0, j as int) =~= uv);
    let first_list = join(&covered_labels, ", ");
    let mut parts: Vec<String> = vec![cat("已覆盖: ", first_list.as_str())];
    if uncovered_labels.len() > 0 {
        let u = join(&uncovered_labels, ", ");
        parts.push(cat("未覆盖: ", u.as_str()));
    }
    if !conflicts.as_str().is_empty() {
        parts.push(cat("装备冲突: ", conflicts.as_str()));
    }
    let r = join(&parts, " | ");
    proof {
        let first = "已覆盖: "@ + joined(
            cv.map_values(|x: CoveredView| x.label + "("@ + x.coverage_quality + ")"@),
            ", "@,
        );
        let with_uncovered = if uv.len() > 0 {
            seq![first, "未覆盖: "@ + joined(uv.map_values(|x: UncoveredView| x.label), ", "@)]
        } else {
            seq![first]
        };
        let expected = if conflicts@.len() > 0 {
            with_uncovered.push("装备冲突: "@ + conflicts@)
        } else {
            with_uncovered
        };
        assert(views(parts@) =~= expected);
    }
    r
}

// ---------------------------------------------------------------------------
// Collecting effect sources
// ---------------------------------------------------------------------------

/// The values a list of references points at.
pub open spec fn derefs<T>(s: Seq<&T>) -> Seq<T> {
    s.map_values(|x: &T| *x)
}

/// How an item applies the effect it brings, by its tags and name.
pub open spec fn item_coverage(p: ItemValueProfile) -> CoverageType {
    let tags = views(p.effect_tags@);
    let n = p.name@;
    if tags.contains("anti_heal"@) {
        if has_sub(n, "日炎"@) {
            CoverageType::AoeAura
        } else if has_sub(n, "红霸符"@) {
            CoverageType::SingleTarget
        } else {
            CoverageType::AoeSpell
        }
    } else if tags.contains("armor_shred"@) {
        if has_sub(n, "薄暮"@) {
            CoverageType::AoeAura
        } else {
            CoverageType::SingleTargetSpell
        }
    } else if tags.contains("mr_shred"@) {
        if has_sub(n, "离子"@) {
            CoverageType::AoeAura
        } else {
            CoverageType::SingleTargetSpell
        }
    } else if tags.contains("mana_engine"@) && (has_sub(n, "青龙刀"@) || has_sub(n, "朔极"@)) {
        CoverageType::AttackTrigger
    } else if tags.contains("mana_engine"@) && has_sub(n, "蓝霸符"@) {
        CoverageType::FlatRegen
    } else if tags.contains("mana_engine"@) && has_sub(n, "大天使"@) {
        CoverageType::TimeBased
    } else {
        CoverageType::Unknown
    }
}

/// One source per tag that names a conflict group.
pub open spec fn tag_sources(
    tags: Seq<Seq<char>>,
    kind: Seq<char>,
    id: Seq<char>,
    name: Seq<char>,
    coverage: CoverageType,
    weight: i32,
) -> Seq<SourceView>
    decreases tags.len(),
{
    if tags.len() == 0 {
        seq![]
    } else {
        let rest = tag_sources(tags.drop_last(), kind, id, name, coverage, weight);
        match tag_group(tags.last()) {
            Some(g) => rest.push(
                SourceView { source_type: kind, source_id: id, source_name: name, group_id: g, coverage, weight },
            ),
            None => rest,
        }
    }
}

/// The sources of the equipped items, by the first profile of each.
pub open spec fn equipped_sources(ids: Seq<Seq<char>>, profiles: Seq<ItemValueProfile>) -> Seq<SourceView>
    decreases ids.len(),
{
    if ids.len() == 0 {
        seq![]
    } else {
        equipped_sources(ids.drop_last(), profiles) + match first_profile(profiles, ids.last()) {
            Some(p) => tag_sources(views(p.effect_tags@), "item"@, ids.last(), p.name@, item_coverage(p), 100),
            None => seq![],
        }
    }
}

pub open spec fn augment_sources(a: Seq<AugmentEffectProfile>) -> Seq<SourceView>
    decreases a.len(),
{
    if a.len() == 0 {
        seq![]
    } else {
        let x = a.last();
        augment_sources(a.drop_last()) + tag_sources(views(x.tags@), "augment"@, x.augment_id@, x.name@, CoverageType::Unknown, 90)
    }
}

pub open spec fn trait_sources(t: Seq<TraitEffectProfile>) -> Seq<SourceView>
    decreases t.len(),
{
    if t.len() == 0 {
        seq![]
    } else {
        let x = t.last();
        trait_sources(t.drop_last()) + tag_sources(views(x.effect_tags@), "trait"@, x.trait_id@, x.name@, CoverageType::Unknown, 80)
    }
}

/// A hero's sources: one per risk tag naming a group, and a mana engine for
/// mana casters.
pub open spec fn champion_sources(c: ChampionCapability) -> Seq<SourceView> {
    tag_sources(views(c.risk_profile@), "champion_skill"@, c.hero_id@, c.name@, CoverageType::Unknown, 70) + if c.cast_pattern@
        == "mana_cast"@ {
        seq![
            SourceView {
                source_type: "champion_skill"@,
                source_id: c.hero_id@,
                source_name: c.name@,
                group_id: "mana_engine"@,
                coverage: CoverageType::Unknown,
                weight: 30,
            },
        ]
    } else {
        seq![]
    }
}

pub open spec fn champions_sources(c: Seq<ChampionCapability>) -> Seq<SourceView>
    decreases c.len(),
{
    if c.len() == 0 {
        seq![]
    } else {
        champions_sources(c.drop_last()) + champion_sources(c.last())
    }
}

fn coverage_of_item(p: &ItemValueProfile) -> (c: CoverageType)
    ensures
        c == item_coverage(*p),
{
    let n = p.name.as_str();
    if list_has(&p.effect_tags, "anti_heal") {
        if str_contains(n, "日炎") {
            CoverageType::AoeAura
        } else if str_contains(n, "红霸符") {
            CoverageType::SingleTarget
        } else {
            CoverageType::AoeSpell
        }
    } else if list_has(&p.effect_tags, "armor_shred") {
        if str_contains(n, "薄暮") {
            CoverageType::AoeAura
        } else {
            CoverageType::SingleTargetSpell
        }
    } else if list_has(&p.effect_tags, "mr_shred") {
        if str_contains(n, "离子") {
            CoverageType::AoeAura
        } else {
            CoverageType::SingleTargetSpell
        }
    } else {
        let mana = list_has(&p.effect_tags, "mana_engine");
        if mana && (str_contains(n, "青龙刀") || str_contains(n, "朔极")) {
            CoverageType::AttackTrigger
        } else if mana && str_contains(n, "蓝霸符") {
            CoverageType::FlatRegen
        } else if mana && str_contains(n, "大天使") {
            CoverageType::TimeBased
        } else {
            CoverageType::Unknown
        }
    }
}

fn first_item_profile<'a>(profiles: &'a [&'a ItemValueProfile], id: &str) -> (r: Option<&'a ItemValueProfile>)
    ensures
        match r {
            Some(p) => first_profile(derefs(profiles@), id@) == Some(*p),
            None => first_profile(derefs(profiles@), id@) is None,
        },
{
    let ghost pv = derefs(profiles@);
    let mut i: usize = 0;
    assert(pv.subrange(0, pv.len() as int) =~= pv);
    while i < profiles.len()
        invariant
            pv == derefs(profiles@),
            i <= pv.len(),
            first_profile(pv, id@) == first_profile(pv.subrange(i as int, pv.len() as int), id@),
        decreases pv.len() - i,
    {
        let ghost rest = pv.subrange(i as int, pv.len() as int);
        assert(rest[0] == pv[i as int]);
        assert(rest.drop_first() =~= pv.subrange(i + 1, pv.len() as int));
        if str_eq(profiles[i].item_id.as_str(), id) {
            return Some(profiles[i]);
        }
        i = i + 1;
    }
    None
}

impl TeamEffectCoverage {
    fn push_tag_sources(
        &self,
        out: &mut Vec<EffectSource>,
        tags: &Vec<String>,
        kind: &str,
        id: &str,
        name: &str,
        coverage: CoverageType,
        weight: i32,
    )
        ensures
            seq_views(final(out)@) == seq_views(old(out)@) + tag_sources(views(tags@), kind@, id@, name@, coverage, weight),
    {
        let ghost start = seq_views(out@);
        let ghost tv = views(tags@);
        let mut i: usize = 0;
        while i < tags.len()
            invariant
                tv == views(tags@),
                i <= tv.len(),
                seq_views(out@) == start + tag_sources(tv.subrange(0, i as int), kind@, id@, name@, coverage, weight),
            decreases tv.len() - i,
        {
            assert(tv.subrange(0, i + 1).drop_last() =~= tv.subrange(0, i as int));
            assert(tv[i as int] == tags@[i as int]@);
            match self.map_tag_to_group(tags[i].as_str()) {
                Some(g) => {
                    let src = EffectSource {
                        source_type: owned(kind),
                        source_id: owned(id),
                        source_name: owned(name),
                        group_id: g,
                        coverage,
                        weight,
                    };
                    let ghost before = seq_views(out@);
                    out.push(src);
                    assert(seq_views(out@) =~= before.push(src@));
                },
                None => {},
            }
            i = i + 1;
        }
        assert(tv.subrange(0, i as int) =~= tv);
    }

    /// Every effect source of a team, in order: the equipped items (by the
    /// first profile of each), the active augments, the active traits, and
    /// the heroes' skills.
    pub fn collect_all_sources(
        &self,
        equipped_item_ids: &[String],
        item_profiles: &[&ItemValueProfile],
        active_augments: &[&AugmentEffectProfile],
        active_traits: &[&TraitEffectProfile],
        champions: &[&ChampionCapability],
    ) -> (r: Vec<EffectSource>)
        ensures
            seq_views(r@) == equipped_sources(views(equipped_item_ids@), derefs(item_profiles@)) + augment_sources(
                derefs(active_augments@),
            ) + trait_sources(derefs(active_traits@)) + champions_sources(derefs(champions@)),
    {
        let mut out: Vec<EffectSource> = Vec::new();
        let ghost iv = views(equipped_item_ids@);
        let ghost pv = derefs(item_profiles@);
        let mut i: usize = 0;
        while i < equipped_item_ids.len()
            invariant
                iv == views(equipped_item_ids@),
                pv == derefs(item_profiles@),
                i <= iv.len(),
                seq_views(out@) == equipped_sources(iv.subrange(0, i as int), pv),
            decreases iv.len() - i,
        {
            assert(iv.subrange(0, i + 1).drop_last() =~= iv.subrange(0, i as int));
            assert(iv[i as int] == equipped_item_ids@[i as int]@);
            let id = equipped_item_ids[i].as_str();
            let ghost before = seq_views(out@);
            match first_item_profile(item_profiles, id) {
                Some(p) => {
                    let cov = coverage_of_item(p);
                    self.push_tag_sources(&mut out, &p.effect_tags, "item", id, p.name.as_str(), cov, 100);
                },
                None => {
                    assert(seq_views(out@) =~= before + Seq::<SourceView>::empty());
                },
            }
            i = i + 1;
        }
        assert(iv.subrange(0, i as int) =~= iv);
        let ghost part1 = seq_views(out@);
        let ghost av = derefs(active_augments@);
        let mut a: usize = 0;
        while a < active_augments.len()
            invariant
                av == derefs(active_augments@),
                a <= av.len(),
                seq_views(out@) == part1 + augment_sources(av.subrange(0, a as int)),
            decreases av.len() - a,
        {
            assert(av.subrange(0, a + 1).drop_last() =~= av.subrange(0, a as int));
            let x = active_augments[a];
            let ghost before = seq_views(out@);
            self.push_tag_sources(&mut out, &x.tags, "augment", x.augment_id.as_str(), x.name.as_str(), CoverageType::Unknown, 90);
            assert(seq_views(out@) =~= part1 + augment_sources(av.subrange(0, a + 1)));
            a = a + 1;
        }
        assert(av.subrange(0, a as int) =~= av);
        let ghost part2 = seq_views(out@);
        let ghost tv = derefs(active_traits@);
        let mut t: usize = 0;
        while t < active_traits.len()
            invariant
                tv == derefs(active_traits@),
                t <= tv.len(),
                seq_views(out@) == part2 + trait_sources(tv.subrange(0, t as int)),
            decreases tv.len() - t,
        {
            assert(tv.subrange(0, t + 1).drop_last() =~= tv.subrange(0, t as int));
            let x = active_traits[t];
            self.push_tag_sources(&mut out, &x.effect_tags, "trait", x.trait_id.as_str(), x.name.as_str(), CoverageType::Unknown, 80);
            assert(seq_views(out@) =~= part2 + trait_sources(tv.subrange(0, t + 1)));
            t = t + 1;
        }
        assert(tv.subrange(0, t as int) =~= tv);
        let ghost part3 = seq_views(out@);
        let ghost cv = derefs(champions@);
        let mut c: usize = 0;
        while c < champions.len()
            invariant
                cv == derefs(champions@),
                c <= cv.len(),
                seq_views(out@) == part3 + champions_sources(cv.subrange(0, c as int)),
            decreases cv.len() - c,
        {
            assert(cv.subrange(0, c + 1).drop_last() =~= cv.subrange(0, c as int));
            let x = champions[c];
            let ghost before = seq_views(out@);
            self.push_tag_sources(&mut out, &x.risk_profile, "champion_skill", x.hero_id.as_str(), x.name.as_str(), CoverageType::Unknown, 70);
            let ghost mid = seq_views(out@);
            if str_eq(x.cast_pattern.as_str(), "mana_cast") {
                let src = EffectSource {
                    source_type: owned("champion_skill"),
                    source_id: x.hero_id.clone(),
                    source_name: x.name.clone(),
                    group_id: owned("mana_engine"),
                    coverage: CoverageType::Unknown,
                    weight: 30,
                };
                out.push(src);
                assert(seq_views(out@) =~= mid.push(src@));
            }
            assert(seq_views(out@) =~= before + champion_sources(*x));
            assert(seq_views(out@) =~= part3 + champions_sources(cv.subrange(0, c + 1)));
            c = c + 1;
        }
        assert(cv.subrange(0, c as int) =~= cv);
        out
    }
}

} // verus!
