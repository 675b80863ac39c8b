use hexsight::opening_route_classifier::OpeningRouteClassifier;
use hexsight::rule_types::OpeningRoute;

#[test]
fn classify_strong_opening() {
    let result = OpeningRouteClassifier::classify(5, 3, true, true, 100, 15, 0, "2-1");
    assert_eq!(result.route, OpeningRoute::WinStreak);
    assert!(result.confidence_percent > 70);
}

#[test]
fn classify_weak_opening() {
    let result = OpeningRouteClassifier::classify(3, 0, false, false, 100, 10, 0, "2-1");
    assert_eq!(result.route, OpeningRoute::LossStreak);
    assert!(result.confidence_percent > 60);
}

#[test]
fn classify_low_hp() {
    let result = OpeningRouteClassifier::classify(4, 1, true, false, 60, 20, 0, "3-1");
    assert_ne!(result.route, OpeningRoute::LossStreak);
}

#[test]
fn opening_reasons_and_streak_notes() {
    let strong = OpeningRouteClassifier::classify(6, 3, false, true, 90, 30, 3, "2-5");
    assert_eq!(strong.confidence_percent, 78);
    assert_eq!(strong.frontline_quality, 45);
    assert_eq!(strong.reasons, vec!["已有 3 个二星，装备可合成战力装".to_string(), "已有 3 连胜，继续保连胜".to_string()]);
    assert_eq!(strong.recommended_actions.len(), 2);

    let losing = OpeningRouteClassifier::classify(3, 0, false, false, 90, 10, -4, "2-5");
    assert_eq!(losing.route, OpeningRoute::LossStreak);
    assert_eq!(losing.frontline_quality, 20);
    assert_eq!(losing.reasons.last().unwrap(), "已有 4 连败，继续控败");
    assert_eq!(losing.recommended_actions.len(), 3);

    let mixed = OpeningRouteClassifier::classify(5, 2, true, false, 80, 10, 0, "2-5");
    assert_eq!(mixed.route, OpeningRoute::Mixed);
    assert_eq!(mixed.confidence_percent, 65);
    assert_eq!(mixed.frontline_quality, 70);
    assert_eq!(mixed.reasons, vec!["2 二星 + 前排，有一定战力".to_string()]);

    let middling = OpeningRouteClassifier::classify(5, 1, false, true, 80, 10, 0, "2-5");
    assert_eq!(middling.confidence_percent, 55);
    assert_eq!(middling.reasons, vec!["开局状态中等，方向未定".to_string()]);
}
