use hexsight::damage_patch_loader::DamageProfile;

#[test]
fn rule_pack_damage_table_reads_numeric_stages() {
    let entries = vec![
        ("3".to_string(), 5),
        ("四".to_string(), 9),
        ("7".to_string(), 11),
        ("3".to_string(), 6),
    ];
    let dp = DamageProfile::from_rule_pack(&entries, "S18.1");
    assert_eq!(dp.version, "S18.1");
    assert_eq!(dp.stage_damage.len(), 2);
    assert_eq!(dp.stage_damage(3), 6);
    assert_eq!(dp.stage_damage(7), 11);
    assert_eq!(dp.stage_damage(4), 4);
    assert_eq!(dp.calculate_damage(7, 3), 14);
}
