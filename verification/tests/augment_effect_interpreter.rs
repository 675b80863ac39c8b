use hexsight::augment_effect_interpreter::AugmentEffectInterpreter;

#[test]
fn interpret_generic_combat() {
    let effect = AugmentEffectInterpreter::interpret("hex_001", "战斗强化", "获得30攻击力和20法术强度", 2, 3);
    assert!(effect.tags.contains(&"generic_combat".to_string()));
    assert!(effect.immediate_power > 30);
    assert!(effect.lock_risk < 40);
}

#[test]
fn interpret_trait_commit() {
    let effect = AugmentEffectInterpreter::interpret("hex_trait", "羁绊之魂", "获得一个随机纹章和羁绊强化", 3, 1);
    assert!(effect.tags.contains(&"trait_commit".to_string()));
    assert!(effect.lock_risk > 30);
}

#[test]
fn interpret_reroll_enabler() {
    let effect = AugmentEffectInterpreter::interpret(
        "hex_reroll",
        "金色刷新",
        "每次D牌获得一次免费刷新，1费和2费英雄概率提升",
        2,
        2,
    );
    assert!(effect.tags.contains(&"reroll_enable".to_string()));
    assert!(effect.reroll_value > 0);
}

#[test]
fn interpret_econ_augment() {
    let effect = AugmentEffectInterpreter::interpret("hex_econ", "理财达人", "立即获得15金币，每回合额外获得2金币利息", 2, 0);
    assert!(effect.tags.contains(&"generic_econ".to_string()));
    assert!(effect.immediate_power < 40);
}

#[test]
fn batch_interpret() {
    let candidates = vec![
        ("a1".to_string(), "战力强化".to_string(), "获得30攻击力".to_string(), 2),
        ("a2".to_string(), "经济强化".to_string(), "获得20金币".to_string(), 1),
    ];
    let coverage = vec![("a1".to_string(), 3), ("a2".to_string(), 1)];
    let effects = AugmentEffectInterpreter::interpret_all(&candidates, &coverage);
    assert_eq!(effects.len(), 2);
    assert!(effects[0].lineup_coverage == 3);
}

#[test]
fn interpretation_is_case_insensitive_in_the_name() {
    let upper = AugmentEffectInterpreter::interpret("x", "AD 强化", "", 1, 0);
    let lower = AugmentEffectInterpreter::interpret("x", "ad 强化", "", 1, 0);
    assert_eq!(upper.tags, lower.tags);
    assert_eq!(upper.immediate_power, lower.immediate_power);
}

#[test]
fn coverage_is_taken_from_the_first_matching_count() {
    let candidates = vec![("a1".to_string(), "无".to_string(), "无".to_string(), 1)];
    let coverage = vec![("a1".to_string(), 2), ("a1".to_string(), 4)];
    let effects = AugmentEffectInterpreter::interpret_all(&candidates, &coverage);
    assert_eq!(effects[0].lineup_coverage, 2);
}

#[test]
fn interpretation_values_stay_in_their_ranges() {
    let cases = [
        ("刷新商店", "免费刷新与复制，1费三星"),
        ("专属", "英雄强化，绑定特定英雄，高风险随机赌"),
        ("空白", ""),
    ];
    for (name, desc) in cases.iter() {
        for level in [1, 2, 3] {
            for count in [0, 2, 9] {
                let e = AugmentEffectInterpreter::interpret("x", name, desc, level, count);
                assert!(0 <= e.immediate_power && e.immediate_power <= 100);
                assert!(0 <= e.lock_risk && e.lock_risk <= 100);
                assert!([0, 15, 30].contains(&e.reroll_value));
                assert_eq!(e.reroll_value > 0, e.tags.iter().any(|t| t == "reroll_enable"));
                assert_eq!(e.lineup_coverage, count.min(5));
                assert_eq!(e.reason.len(), e.tags.len());
                let mut seen = e.tags.clone();
                seen.sort();
                seen.dedup();
                assert_eq!(seen.len(), e.tags.len());
            }
        }
    }
    let e = AugmentEffectInterpreter::interpret("x", "刷新商店", "免费刷新与复制，1费三星", 2, 1);
    assert_eq!(e.reroll_value, 30);
}
