//! Opening routes: win streak, loss streak or mixed, from the early board.
use vstd::prelude::*;
use crate::rule_types::OpeningRoute;
use crate::text::{cat, int_text, int_to_text, owned, push_str, views};

verus! {

/// The route chosen for the opening, with why and what to do.
#[derive(Debug, Clone)]
pub struct OpeningRouteResult {
    pub route: OpeningRoute,
    /// Confidence in percent.
    pub confidence_percent: i32,
    pub reasons: Vec<String>,
    pub two_star_count: i32,
    /// Frontline quality, 0-100.
    pub frontline_quality: i32,
    pub can_build_combat_item: bool,
    pub recommended_actions: Vec<String>,
}

/// Classifies openings.
pub struct OpeningRouteClassifier;

/// Frontline quality: a tank and a two-star unit, one of them, or neither.
pub open spec fn frontline_of(two_star: i32, has_tank: bool) -> i32 {
    if has_tank && two_star >= 1 {
        70
    } else if has_tank || two_star >= 1 {
        45
    } else {
        20
    }
}

/// Which of the five cases the opening falls in: strong board with a combat
/// item (0), two-star units with a tank (1), weak board at high health (2),
/// low health (3), anything else (4).
pub open spec fn opening_case(two_star: i32, has_tank: bool, can_build: bool, hp: i32) -> int {
    if two_star >= 3 && can_build {
        0
    } else if two_star >= 2 && has_tank {
        1
    } else if two_star <= 1 && !can_build && hp >= 85 {
        2
    } else if hp < 70 {
        3
    } else {
        4
    }
}

pub open spec fn route_of_case(c: int) -> OpeningRoute {
    if c == 0 {
        OpeningRoute::WinStreak
    } else if c == 2 {
        OpeningRoute::LossStreak
    } else {
        OpeningRoute::Mixed
    }
}

pub open spec fn confidence_of_case(c: int) -> i32 {
    if c == 0 {
        78
    } else if c == 1 {
        65
    } else if c == 2 {
        72
    } else if c == 3 {
        60
    } else {
        55
    }
}

/// The reasons of a case.
pub open spec fn case_reasons(c: int, two_star: i32) -> Seq<Seq<char>> {
    if c == 0 {
        seq!["已有 "@ + int_text(two_star as int) + " 个二星，装备可合成战力装"@]
    } else if c == 1 {
        seq![int_text(two_star as int) + " 二星 + 前排，有一定战力"@]
    } else if c == 2 {
        seq!["二星少，装备暂时无法合成战力装"@, "血量安全，适合精致连败"@]
    } else if c == 3 {
        seq!["血量偏低，不适合连败"@]
    } else {
        seq!["开局状态中等，方向未定"@]
    }
}

/// The recommended actions of a case.
pub open spec fn case_actions(c: int) -> Seq<Seq<char>> {
    if c == 0 {
        seq!["合通用战力装保连胜"@, "提前升人口扩大优势"@]
    } else if c == 1 {
        seq!["评估是否能匹配前几家强度"@, "能赢就保连胜，不能就保经济"@]
    } else if c == 2 {
        seq!["控强度保连败"@, "保利息优先"@, "选秀抢关键装备"@]
    } else if c == 3 {
        seq!["立即补战力，避免继续掉血"@, "合当前能用的装备"@]
    } else {
        seq!["保血量 + 保利息"@, "等待装备/海克斯确认方向"@]
    }
}

/// The streak note: a win streak of two or more on the win-streak route, a
/// loss streak of two or more on the loss-streak route.
pub open spec fn streak_reasons(route: OpeningRoute, streak: i32) -> Seq<Seq<char>> {
    (if streak >= 2 && route == OpeningRoute::WinStreak {
        seq!["已有 "@ + int_text(streak as int) + " 连胜，继续保连胜"@]
    } else {
        seq![]
    }) + (if streak <= -2 && route == OpeningRoute::LossStreak {
        seq!["已有 "@ + int_text(-(streak as int)) + " 连败，继续控败"@]
    } else {
        seq![]
    })
}

fn push_view(v: &mut Vec<String>, s: String)
    ensures
        views(final(v)@) == views(old(v)@).push(s@),
{
    let ghost before = views(v@);
    v.push(s);
    assert(views(v@) =~= before.push(s@));
}

impl OpeningRouteClassifier {
    /// Classifies an opening by its two-star units, frontline tank, combat
    /// items, health and streak.
    pub fn classify(
        _hero_count: i32,
        two_star_count: i32,
        has_frontline_tank: bool,
        can_build_combat_item: bool,
        current_hp: i32,
        _current_gold: i32,
        current_streak: i32,
        _round: &str,
    ) -> (r: OpeningRouteResult)
        requires
            !(current_streak == i32::MIN && route_of_case(
                opening_case(two_star_count, has_frontline_tank, can_build_combat_item, current_hp),
            ) == OpeningRoute::LossStreak),
        ensures
            ({
                let c = opening_case(two_star_count, has_frontline_tank, can_build_combat_item, current_hp);
                &&& r.route == route_of_case(c)
                &&& r.confidence_percent == confidence_of_case(c)
                &&& views(r.reasons@) == case_reasons(c, two_star_count) + streak_reasons(route_of_case(c), current_streak)
                &&& views(r.recommended_actions@) == case_actions(c)
                &&& r.two_star_count == two_star_count
                &&& r.frontline_quality == frontline_of(two_star_count, has_frontline_tank)
                &&& r.can_build_combat_item == can_build_combat_item
            }),
    {
        let ghost c = opening_case(two_star_count, has_frontline_tank, can_build_combat_item, current_hp);
        let mut reasons: Vec<String> = Vec::new();
        let mut actions: Vec<String> = Vec::new();
        let frontline_quality: i32 = if has_frontline_tank && two_star_count >= 1 {
            70
        } else if has_frontline_tank || two_star_count >= 1 {
            45
        } else {
            20
        };
        let route;
        let confidence: i32;
        if two_star_count >= 3 && can_build_combat_item {
            let mut line = cat("已有 ", int_to_text(two_star_count as i64).as_str());
            push_str(&mut line, " 个二星，装备可合成战力装");
            push_view(&mut reasons, line);
            push_view(&mut actions, owned("合通用战力装保连胜"));
            push_view(&mut actions, owned("提前升人口扩大优势"));
            route = OpeningRoute::WinStreak;
            confidence = 78;
        } else if two_star_count >= 2 && has_frontline_tank {
            let line = cat(int_to_text(two_star_count as i64).as_str(), " 二星 + 前排，有一定战力");
            push_view(&mut reasons, line);
            push_view(&mut actions, owned("评估是否能匹配前几家强度"));
            push_view(&mut actions, owned("能赢就保连胜，不能就保经济"));
            route = OpeningRoute::Mixed;
            confidence = 65;
        } else if two_star_count <= 1 && !can_build_combat_item && current_hp >= 85 {
            push_view(&mut reasons, owned("二星少，装备暂时无法合成战力装"));
            push_view(&mut reasons, owned("血量安全，适合精致连败"));
            push_view(&mut actions, owned("控强度保连败"));
            push_view(&mut actions, owned("保利息优先"));
            push_view(&mut actions, owned("选秀抢关键装备"));
            route = OpeningRoute::LossStreak;
            confidence = 72;
        } else if current_hp < 70 {
            push_view(&mut reasons, owned("血量偏低，不适合连败"));
            push_view(&mut actions, owned("立即补战力，避免继续掉血"));
            push_view(&mut actions, owned("合当前能用的装备"));
            route = OpeningRoute::Mixed;
            confidence = 60;
        } else {
            push_view(&mut reasons, owned("开局状态中等，方向未定"));
            push_view(&mut actions, owned("保血量 + 保利息"));
            push_view(&mut actions, owned("等待装备/海克斯确认方向"));
            route = OpeningRoute::Mixed;
            confidence = 55;
        }
        assert(views(reasons@) =~= case_reasons(c, two_star_count));
        assert(views(actions@) =~= case_actions(c));
        let ghost base = views(reasons@);
        if current_streak >= 2 && route == OpeningRoute::WinStreak {
            let mut line = cat("已有 ", int_to_text(current_streak as i64).as_str());
            push_str(&mut line, " 连胜，继续保连胜");
            push_view(&mut reasons, line);
        }
        let ghost mid = views(reasons@);
        assert(mid =~= base + (if current_streak >= 2 && route == OpeningRoute::WinStreak {
            seq!["已有 "@ + int_text(current_streak as int) + " 连胜，继续保连胜"@]
        } else {
            seq![]
        }));
        if current_streak <= -2 && route == OpeningRoute::LossStreak {
            let mut line = cat("已有 ", int_to_text(-(current_streak as i64)).as_str());
            push_str(&mut line, " 连败，继续控败");
            push_view(&mut reasons, line);
        }
        assert(views(reasons@) =~= mid + (if current_streak <= -2 && route == OpeningRoute::LossStreak {
            seq!["已有 "@ + int_text(-(current_streak as int)) + " 连败，继续控败"@]
        } else {
            seq![]
        }));
        OpeningRouteResult {
            route,
            confidence_percent: confidence,
            reasons,
            two_star_count,
            frontline_quality,
            can_build_combat_item,
            recommended_actions: actions,
        }
    }
}

} // verus!
