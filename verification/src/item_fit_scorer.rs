//! How the items at hand fit each lineup: how many core items can be built,
//! which way the items point (AD, AP, tank or mixed) and what to do with them.
use vstd::prelude::*;
use crate::order::is_permutation;
use crate::ranking::{stable_order, stably_sorted, Key3};
use crate::rule_types::{ItemAction, ItemFitResult, LineupProfile, PlaystyleTag};
use crate::text::{cat, int_text, list_has, nat_to_text, owned, parse_i32, parse_i32_spec, push_str, str_eq, views};

verus! {

/// Scores item fit.
pub struct ItemFitScorer;

// ---------------------------------------------------------------------------
// Directions
// ---------------------------------------------------------------------------

/// The item id as a number, 0 where it does not read as one.
pub open spec fn item_number(id: Seq<char>) -> int {
    match parse_i32_spec(id) {
        Some(v) => v as int,
        None => 0,
    }
}

/// Attack components.
pub open spec fn is_ad_item(n: int) -> bool {
    n == 1001 || n == 1006 || n == 1008 || n == 1019 || n == 1021
}

/// Magic components.
pub open spec fn is_ap_item(n: int) -> bool {
    n == 1003 || n == 1004 || n == 1005 || n == 1010
}

/// Defensive components.
pub open spec fn is_tank_item(n: int) -> bool {
    n == 1002 || n == 1007 || n == 1009 || n == 1011
}

/// How many of the ids fall in a class (0 AD, 1 AP, 2 tank).
pub open spec fn class_count(ids: Seq<Seq<char>>, class: int) -> int
    decreases ids.len(),
{
    if ids.len() == 0 {
        0
    } else {
        let n = item_number(ids.last());
        let hit = if class == 0 {
            is_ad_item(n)
        } else if class == 1 {
            is_ap_item(n)
        } else {
            is_tank_item(n)
        };
        class_count(ids.drop_last(), class) + if hit { 1int } else { 0int }
    }
}

/// The direction with strictly the most votes, else mixed.
pub open spec fn direction_of(ad: int, ap: int, tank: int) -> Seq<char> {
    if ad > ap && ad > tank {
        "AD"@
    } else if ap > ad && ap > tank {
        "AP"@
    } else if tank > ad && tank > ap {
        "坦"@
    } else {
        "混合"@
    }
}

fn direction_text(ad: u64, ap: u64, tank: u64) -> (r: String)
    ensures
        r@ == direction_of(ad as int, ap as int, tank as int),
{
    if ad > ap && ad > tank {
        owned("AD")
    } else if ap > ad && ap > tank {
        owned("AP")
    } else if tank > ad && tank > ap {
        owned("坦")
    } else {
        owned("混合")
    }
}

proof fn lemma_class_count_le(ids: Seq<Seq<char>>, class: int)
    ensures
        0 <= class_count(ids, class) <= ids.len(),
    decreases ids.len(),
{
    if ids.len() > 0 {
        lemma_class_count_le(ids.drop_last(), class);
    }
}

impl ItemFitScorer {
    /// The direction of a list of item ids by their component classes.
    pub fn classify_direction(equipment_ids: &[String]) -> (r: String)
        ensures
            r@ == direction_of(
                class_count(views(equipment_ids@), 0),
                class_count(views(equipment_ids@), 1),
                class_count(views(equipment_ids@), 2),
            ),
    {
        let ghost ids = views(equipment_ids@);
        let mut ad: u64 = 0;
        let mut ap: u64 = 0;
        let mut tank: u64 = 0;
        let mut i: usize = 0;
        while i < equipment_ids.len()
            invariant
                ids == views(equipment_ids@),
                i <= ids.len(),
                ad == class_count(ids.subrange(0, i as int), 0),
                ap == class_count(ids.subrange(0, i as int), 1),
                tank == class_count(ids.subrange(0, i as int), 2),
            decreases ids.len() - i,
        {
            assert(ids.subrange(0, i + 1).drop_last() =~= ids.subrange(0, i as int));
            assert(ids.subrange(0, i + 1).last() == equipment_ids@[i as int]@);
            proof {
                lemma_class_count_le(ids.subrange(0, i as int), 0);
                lemma_class_count_le(ids.subrange(0, i as int), 1);
                lemma_class_count_le(ids.subrange(0, i as int), 2);
            }
            let n: i32 = match parse_i32(equipment_ids[i].as_str()) {
                Some(v) => v,
                None => 0,
            };
            if n == 1001 || n == 1006 || n == 1008 || n == 1019 || n == 1021 {
                ad = ad + 1;
            } else if n == 1003 || n == 1004 || n == 1005 || n == 1010 {
                ap = ap + 1;
            } else if n == 1002 || n == 1007 || n == 1009 || n == 1011 {
                tank = tank + 1;
            }
            i = i + 1;
        }
        assert(ids.subrange(0, i as int) =~= ids);
        direction_text(ad, ap, tank)
    }

    /// The overall direction of the first five results: the direction most of
    /// them point to, strictly, else mixed.
    pub fn best_direction(results: &[ItemFitResult]) -> (r: String)
        ensures
            r@ == direction_of(
                direction_votes(results@, "AD"@),
                direction_votes(results@, "AP"@),
                direction_votes(results@, "坦"@),
            ),
    {
        proof {
            reveal_strlit("AD");
            reveal_strlit("AP");
            reveal_strlit("坦");
        }
        let n: usize = if results.len() < 5 { results.len() } else { 5 };
        let ghost top = results@.subrange(0, n as int);
        let mut ad: u64 = 0;
        let mut ap: u64 = 0;
        let mut tank: u64 = 0;
        let mut i: usize = 0;
        while i < n
            invariant
                n <= results@.len(),
                n <= 5,
                top == results@.subrange(0, n as int),
                i <= n,
                ad == votes_in(top.subrange(0, i as int), "AD"@),
                ap == votes_in(top.subrange(0, i as int), "AP"@),
                tank == votes_in(top.subrange(0, i as int), "坦"@),
                ad <= i && ap <= i && tank <= i,
            decreases n - i,
        {
            assert(top.subrange(0, i + 1).drop_last() =~= top.subrange(0, i as int));
            assert(top.subrange(0, i + 1).last() == results@[i as int]);
            proof {
                reveal_strlit("AD");
                reveal_strlit("AP");
                reveal_strlit("坦");
                assert("AD"@[1] != "AP"@[1]);
                assert("AD"@ != "AP"@);
                assert("AD"@.len() != "坦"@.len());
                assert("AP"@.len() != "坦"@.len());
            }
            let d = results[i].direction.as_str();
            if str_eq(d, "AD") {
                ad = ad + 1;
            } else if str_eq(d, "AP") {
                ap = ap + 1;
            } else if str_eq(d, "坦") {
                tank = tank + 1;
            }
            i = i + 1;
        }
        assert(top.subrange(0, n as int) =~= top);
        assert(top =~= (if results@.len() < 5 { results@ } else { results@.subrange(0, 5) }));
        direction_text(ad, ap, tank)
    }
}

/// How many results point to a direction.
pub open spec fn votes_in(rs: Seq<ItemFitResult>, dir: Seq<char>) -> int
    decreases rs.len(),
{
    if rs.len() == 0 {
        0
    } else {
        votes_in(rs.drop_last(), dir) + if rs.last().direction@ == dir { 1int } else { 0int }
    }
}

/// The votes of the first five results for a direction.
pub open spec fn direction_votes(rs: Seq<ItemFitResult>, dir: Seq<char>) -> int {
    votes_in(if rs.len() < 5 { rs } else { rs.subrange(0, 5) }, dir)
}

// ---------------------------------------------------------------------------
// Fit of each lineup
// ---------------------------------------------------------------------------

pub struct FitView {
    pub best_fit_lineup_ids: Seq<Seq<char>>,
    pub direction: Seq<char>,
    pub core_component_count: i32,
    pub can_build_core_count: i32,
    pub flexibility: i32,
    pub recommended_action: ItemAction,
    pub reasons: Seq<Seq<char>>,
}

impl View for ItemFitResult {
    type V = FitView;

    open spec fn view(&self) -> FitView {
        FitView {
            best_fit_lineup_ids: views(self.best_fit_lineup_ids@),
            direction: self.direction@,
            core_component_count: self.core_component_count,
            can_build_core_count: self.can_build_core_count,
            flexibility: self.flexibility,
            recommended_action: self.recommended_action,
            reasons: views(self.reasons@),
        }
    }
}

/// How many of the ids are among the items at hand.
pub open spec fn hits(ids: Seq<Seq<char>>, avail: Seq<Seq<char>>) -> int
    decreases ids.len(),
{
    if ids.len() == 0 {
        0
    } else {
        hits(ids.drop_last(), avail) + if avail.contains(ids.last()) { 1int } else { 0int }
    }
}

/// What to do with the items: build combat items when at least 60% of the
/// core items can be built, wait at 30%, build generic items when some item
/// of the priority list is at hand, else hold the components.
pub open spec fn fit_action(core: int, total: int, listed: int) -> ItemAction {
    if 5 * core >= 3 * total {
        ItemAction::BuildCombatNow
    } else if 10 * core >= 3 * total {
        ItemAction::WaitCore
    } else if listed > 0 {
        ItemAction::BuildGeneric
    } else {
        ItemAction::HoldComponents
    }
}

pub open spec fn fit_reason(core: int, total: int, listed: int) -> Seq<char> {
    if 5 * core >= 3 * total {
        "核心装备匹配 "@ + int_text(core) + "/"@ + int_text(total)
    } else if 10 * core >= 3 * total {
        "核心装备部分匹配 "@ + int_text(core) + "/"@ + int_text(total) + "，可继续观察"@
    } else if listed > 0 {
        "装备优先级部分匹配 "@ + int_text(listed) + " 件"@
    } else {
        "当前装备不匹配此阵容核心装"@
    }
}

/// The fit of a lineup to the items at hand.
pub open spec fn fit_of(p: LineupProfile, avail: Seq<Seq<char>>) -> FitView {
    let core = views(p.core_equipment_ids@);
    let cm = hits(core, avail);
    let em = hits(views(p.equipment_order_ids@), avail);
    let tc = if core.len() > 0 { core.len() as int } else { 1 };
    FitView {
        best_fit_lineup_ids: seq![p.lineup_id@],
        direction: direction_of(class_count(core, 0), class_count(core, 1), class_count(core, 2)),
        core_component_count: core.len() as i32,
        can_build_core_count: cm as i32,
        flexibility: if p.playstyle_tags@.contains(PlaystyleTag::ItemFlexible) { 80 } else { 40 },
        recommended_action: fit_action(cm, tc, em),
        reasons: seq![fit_reason(cm, tc, em)],
    }
}

pub open spec fn fits_of(ps: Seq<LineupProfile>, avail: Seq<Seq<char>>) -> Seq<FitView> {
    ps.map_values(|p: LineupProfile| fit_of(p, avail))
}

/// More buildable core items first.
pub open spec fn build_keys(fits: Seq<FitView>) -> Seq<Key3> {
    fits.map_values(|f: FitView| ((-(f.can_build_core_count as int)) as i64, 0i64, 0i64))
}

/// `r` is the fits ordered by buildable core items, most first, equal counts
/// in lineup order.
pub open spec fn sorted_fits(fits: Seq<FitView>, r: Seq<FitView>) -> bool {
    exists|idx: Seq<usize>|
        is_permutation(idx, fits.len()) && stably_sorted(build_keys(fits), idx) && r.len() == fits.len() && forall|
            i: int,
        |
            0 <= i < r.len() ==> #[trigger] r[i] == fits[idx[i] as int]
}

fn count_hits(ids: &Vec<String>, avail: &Vec<String>) -> (r: usize)
    ensures
        r == hits(views(ids@), views(avail@)),
        r <= ids@.len(),
{
    let ghost iv = views(ids@);
    let mut c: usize = 0;
    let mut i: usize = 0;
    while i < ids.len()
        invariant
            iv == views(ids@),
            i <= ids@.len(),
            c == hits(iv.subrange(0, i as int), views(avail@)),
            c <= i,
        decreases ids@.len() - i,
    {
        assert(iv.subrange(0, i + 1).drop_last() =~= iv.subrange(0, i as int));
        assert(iv.subrange(0, i + 1).last() == ids@[i as int]@);
        if list_has(avail, ids[i].as_str()) {
            c = c + 1;
        }
        i = i + 1;
    }
    assert(iv.subrange(0, i as int) =~= iv);
    c
}

fn fit_reason_text(core: usize, total: usize, listed: usize) -> (r: String)
    requires
        core <= total,
        total <= usize::MAX / 10,
    ensures
        r@ == fit_reason(core as int, total as int, listed as int),
{
    if 5 * core >= 3 * total {
        let mut t = cat("核心装备匹配 ", nat_to_text(core as u64).as_str());
        push_str(&mut t, "/");
        push_str(&mut t, nat_to_text(total as u64).as_str());
        t
    } else if 10 * core >= 3 * total {
        let mut t = cat("核心装备部分匹配 ", nat_to_text(core as u64).as_str());
        push_str(&mut t, "/");
        push_str(&mut t, nat_to_text(total as u64).as_str());
        push_str(&mut t, "，可继续观察");
        t
    } else if listed > 0 {
        let mut t = cat("装备优先级部分匹配 ", nat_to_text(listed as u64).as_str());
        push_str(&mut t, " 件");
        t
    } else {
        owned("当前装备不匹配此阵容核心装")
    }
}

fn fit_for(p: &LineupProfile, avail: &Vec<String>) -> (r: ItemFitResult)
    requires
        p.core_equipment_ids@.len() <= usize::MAX / 10,
    ensures
        r@ == fit_of(*p, views(avail@)),
{
    let core_match = count_hits(&p.core_equipment_ids, avail);
    let equipment_match = count_hits(&p.equipment_order_ids, avail);
    let total_core: usize = if p.core_equipment_ids.len() > 0 { p.core_equipment_ids.len() } else { 1 };
    let action = if 5 * core_match >= 3 * total_core {
        ItemAction::BuildCombatNow
    } else if 10 * core_match >= 3 * total_core {
        ItemAction::WaitCore
    } else if equipment_match > 0 {
        ItemAction::BuildGeneric
    } else {
        ItemAction::HoldComponents
    };
    let mut flexible = false;
    let mut i: usize = 0;
    while i < p.playstyle_tags.len()
        invariant
            i <= p.playstyle_tags@.len(),
            flexible == p.playstyle_tags@.subrange(0, i as int).contains(PlaystyleTag::ItemFlexible),
        decreases p.playstyle_tags@.len() - i,
    {
        let ghost sub = p.playstyle_tags@.subrange(0, i as int);
        assert(p.playstyle_tags@.subrange(0, i + 1) =~= sub.push(p.playstyle_tags@[i as int]));
        if p.playstyle_tags[i] == PlaystyleTag::ItemFlexible {
            flexible = true;
        }
        i = i + 1;
        assert(flexible == p.playstyle_tags@.subrange(0, i as int).contains(PlaystyleTag::ItemFlexible)) by {
            let s2 = p.playstyle_tags@.subrange(0, i as int);
            if flexible {
                if !sub.contains(PlaystyleTag::ItemFlexible) {
                    assert(s2[i - 1] == PlaystyleTag::ItemFlexible);
                } else {
                    let k = choose|k: int| 0 <= k < sub.len() && sub[k] == PlaystyleTag::ItemFlexible;
                    assert(s2[k] == sub[k]);
                }
            } else {
                assert forall|k: int| 0 <= k < s2.len() implies s2[k] != PlaystyleTag::ItemFlexible by {
                    if k < sub.len() {
                        assert(s2[k] == sub[k]);
                    }
                }
            }
        }
    }
    assert(p.playstyle_tags@.subrange(0, i as int) =~= p.playstyle_tags@);
    let reason = fit_reason_text(core_match, total_core, equipment_match);
    let mut reasons: Vec<String> = Vec::new();
    reasons.push(reason);
    let mut ids: Vec<String> = Vec::new();
    ids.push(p.lineup_id.clone());
    let r = ItemFitResult {
        best_fit_lineup_ids: ids,
        direction: ItemFitScorer::classify_direction(p.core_equipment_ids.as_slice()),
        core_component_count: p.core_equipment_ids.len() as i32,
        can_build_core_count: core_match as i32,
        flexibility: if flexible { 80 } else { 40 },
        recommended_action: action,
        reasons,
    };
    assert(r@.best_fit_lineup_ids =~= seq![p.lineup_id@]);
    assert(r@.reasons =~= seq![fit_reason(core_match as int, total_core as int, equipment_match as int)]);
    r
}

fn append_all(v: &mut Vec<String>, more: &[String])
    ensures
        views(final(v)@) == views(old(v)@) + views(more@),
{
    let ghost start = views(v@);
    let mut i: usize = 0;
    while i < more.len()
        invariant
            i <= more@.len(),
            views(v@) == start + views(more@.subrange(0, i as int)),
        decreases more@.len() - i,
    {
        let ghost before = views(v@);
        v.push(more[i].clone());
        assert(views(v@) =~= before.push(more@[i as int]@));
        assert(views(more@.subrange(0, i + 1)) =~= views(more@.subrange(0, i as int)).push(more@[i as int]@));
        i = i + 1;
        assert(views(v@) =~= start + views(more@.subrange(0, i as int)));
    }
    assert(more@.subrange(0, i as int) =~= more@);
}

fn copy_fit(r: &ItemFitResult) -> (c: ItemFitResult)
    ensures
        c@ == r@,
{
    ItemFitResult {
        best_fit_lineup_ids: crate::text::clone_strings(&r.best_fit_lineup_ids),
        direction: r.direction.clone(),
        core_component_count: r.core_component_count,
        can_build_core_count: r.can_build_core_count,
        flexibility: r.flexibility,
        recommended_action: r.recommended_action,
        reasons: crate::text::clone_strings(&r.reasons),
    }
}

impl ItemFitScorer {
    /// The fit of each lineup to the items and components at hand, most
    /// buildable core items first.
    pub fn score(profiles: &[LineupProfile], current_equipment_ids: &[String], current_components: &[String]) -> (r: Vec<
        ItemFitResult,
    >)
        requires
            forall|i: int| 0 <= i < profiles@.len() ==> (#[trigger] profiles@[i]).core_equipment_ids@.len() <= usize::MAX / 10,
        ensures
            sorted_fits(
                fits_of(profiles@, views(current_equipment_ids@) + views(current_components@)),
                r@.map_values(|x: ItemFitResult| x@),
            ),
    {
        let mut avail: Vec<String> = Vec::new();
        append_all(&mut avail, current_equipment_ids);
        append_all(&mut avail, current_components);
        let ghost av = views(avail@);
        assert(av =~= views(current_equipment_ids@) + views(current_components@));
        let ghost fits = fits_of(profiles@, av);
        let mut raw: Vec<ItemFitResult> = Vec::new();
        let mut keys: Vec<Key3> = Vec::new();
        let mut i: usize = 0;
        while i < profiles.len()
            invariant
                av == views(avail@),
                fits == fits_of(profiles@, av),
                forall|k: int| 0 <= k < profiles@.len() ==> (#[trigger] profiles@[k]).core_equipment_ids@.len() <= usize::MAX / 10,
                i <= profiles@.len(),
                raw@.len() == i,
                forall|k: int| 0 <= k < i ==> (#[trigger] raw@[k])@ == fits[k],
                keys@ == build_keys(fits).subrange(0, i as int),
            decreases profiles@.len() - i,
        {
            let f = fit_for(&profiles[i], &avail);
            let k: i64 = -(f.can_build_core_count as i64);
            keys.push((k, 0i64, 0i64));
            raw.push(f);
            i = i + 1;
            assert(keys@ =~= build_keys(fits).subrange(0, i as int));
        }
        assert(build_keys(fits).subrange(0, i as int) =~= build_keys(fits));
        let idx = stable_order(&keys);
        let mut out: Vec<ItemFitResult> = Vec::new();
        let mut j: usize = 0;
        while j < idx.len()
            invariant
                idx@.len() == raw@.len(),
                raw@.len() == fits.len(),
                forall|t: int| 0 <= t < idx@.len() ==> idx@[t] < raw@.len(),
                forall|k: int| 0 <= k < raw@.len() ==> (#[trigger] raw@[k])@ == fits[k],
                j <= idx@.len(),
                out@.len() == j,
                forall|t: int| 0 <= t < j ==> (#[trigger] out@[t])@ == fits[idx@[t] as int],
            decreases idx@.len() - j,
        {
            out.push(copy_fit(&raw[idx[j]]));
            j = j + 1;
        }
        let ghost rv = out@.map_values(|x: ItemFitResult| x@);
        assert(forall|t: int| 0 <= t < rv.len() ==> #[trigger] rv[t] == fits[idx@[t] as int]);
        assert(is_permutation(idx@, fits.len()) && stably_sorted(build_keys(fits), idx@));
        out
    }
}

} // verus!
