use hexsight::data_types::{EquipmentData, HeroData, LineupPieceData, TraitContactData, TraitData};
use hexsight::game_data_index::{GameDataIndex, GameDataLoader};

fn hero(id: &str, name: &str, price: &str, species: &str, class: &str) -> HeroData {
    HeroData {
        id: id.to_string(),
        name: name.to_string(),
        price: price.to_string(),
        picture: format!("{}.png", name),
        species: species.to_string(),
        hero_class: class.to_string(),
        ..HeroData::default()
    }
}

fn level(check_id: &str, trait_type: i32, name: &str, level: i32, num: &str, color: &str) -> TraitData {
    TraitData {
        id: format!("{}-{}", check_id, level),
        name: name.to_string(),
        checkId: check_id.to_string(),
        trait_type,
        color: color.to_string(),
        level,
        num: num.to_string(),
        numList: "2|4".to_string(),
        ..TraitData::default()
    }
}

fn piece(hero_id: &str) -> LineupPieceData {
    LineupPieceData {
        chess_type: "hero".to_string(),
        hero_id: hero_id.to_string(),
        ..LineupPieceData::default()
    }
}

fn sample_index() -> GameDataIndex {
    let heroes = vec![
        ("101".to_string(), hero("101", "Ahri", "3", "10|0", "20")),
        ("102".to_string(), hero("202", "Garen", "1", "10", "21|-1")),
        ("103".to_string(), hero("103", "Dummy", "0", "10", "20")),
    ];
    let equipment = vec![
        ("1001".to_string(), EquipmentData { id: "1001".into(), name: "剑".into(), equip_type: "基础装备".into(), ..EquipmentData::default() }),
        ("2001".to_string(), EquipmentData { id: "2001".into(), name: "大剑".into(), equip_type: "成型装备".into(), ..EquipmentData::default() }),
    ];
    let traits = vec![
        level("10", 0, "Mage", 2, "4", "2"),
        level("10", 0, "Mage", 1, "2", "1"),
        level("20", 1, "Blade", 1, "1", "1"),
        level("21", 1, "Guard", 1, "x", "3"),
    ];
    GameDataIndex::from_data(
        "17",
        heroes,
        equipment,
        vec![],
        traits,
        vec![("10".to_string(), "法师".to_string())],
        vec![("20".to_string(), "剑士".to_string())],
        vec![("1001".to_string(), "暴风大剑".to_string())],
        vec![],
        vec![],
    )
}

#[test]
fn index_enriches_heroes() {
    let index = sample_index();
    let ahri = index.hero("101").unwrap();
    assert_eq!(ahri.cost, 3);
    assert_eq!(ahri.star_level, 1);
    assert_eq!(ahri.base_key, "Ahri_3");
    let garen = index.hero("102").unwrap();
    assert_eq!(garen.star_level, 2);
    assert_eq!(garen.cost, 1);
    assert!(index.hero("999").is_none());
}

#[test]
fn enrich_unreadable_price_costs_nothing() {
    let mut heroes = vec![("1".to_string(), hero("x1", "A", "abc", "", ""))];
    GameDataLoader::enrich_heroes(&mut heroes);
    assert_eq!(heroes[0].1.cost, 0);
    assert_eq!(heroes[0].1.star_level, 1);
    assert_eq!(heroes[0].1.base_key, "A_abc");
}

#[test]
fn index_classifies_equipment() {
    let index = sample_index();
    let sword = index.equipment("1001").unwrap();
    assert!(sword.is_component);
    assert!(!sword.is_completed);
    let big = index.equipment("2001").unwrap();
    assert!(big.is_completed);
    assert!(!big.is_component);
    assert!(index.hex("1").is_none());
}

#[test]
fn names_with_defaults() {
    let index = sample_index();
    assert_eq!(index.race_name("10"), "法师");
    assert_eq!(index.race_name("99"), "");
    assert_eq!(index.job_name("20"), "剑士");
    assert_eq!(index.job_name("10"), "");
    assert_eq!(index.equip_name("1001"), "暴风大剑");
    assert_eq!(index.equip_name("7777"), "7777");
    assert_eq!(index.hero_picture("Ahri"), Some("Ahri.png"));
    assert_eq!(index.hero_picture("Nobody"), None);
}

#[test]
fn trait_levels_sorted_by_level() {
    let index = sample_index();
    let levels = index.trait_levels("10");
    assert_eq!(levels.len(), 2);
    assert_eq!(levels[0].level, 1);
    assert_eq!(levels[1].level, 2);
    assert!(index.trait_levels("nope").is_empty());
}

#[test]
fn trait_thresholds_read_from_list() {
    let mut traits = vec![TraitData { numList: " 2| 4 |x||6".to_string(), ..TraitData::default() }];
    GameDataLoader::fill_thresholds(&mut traits);
    assert_eq!(traits[0].thresholds, vec![2, 4, 6]);
}

#[test]
fn heroes_for_trait_skips_free_heroes() {
    let index = sample_index();
    let mages: Vec<&str> = index.heroes_for_trait("10", true).iter().map(|h| h.name.as_str()).collect();
    assert_eq!(mages, vec!["Ahri", "Garen"]);
    let blades: Vec<&str> = index.heroes_for_trait("20", false).iter().map(|h| h.name.as_str()).collect();
    assert_eq!(blades, vec!["Ahri"]);
    assert!(index.heroes_for_trait("0", true).is_empty());
}

#[test]
fn summaries_counted_from_pieces() {
    let index = sample_index();
    let pieces = vec![piece("101"), piece("102"), piece("404")];
    let s = index.trait_summaries(&pieces, &[]);
    // Mage counted twice reaches level 1 (needs 2); Blade once reaches level 1;
    // Guard's count cannot be read, so it reaches no level.
    assert_eq!(s.len(), 2);
    assert_eq!(s[0].id, "race:10");
    assert_eq!(s[0].name, "Mage");
    assert_eq!(s[0].count, 2);
    assert_eq!(s[0].level, 1);
    assert_eq!(s[0].color, 1);
    assert_eq!(s[1].id, "job:20");
    assert_eq!(s[1].count, 1);
}

#[test]
fn summaries_from_official_contacts() {
    let index = sample_index();
    let contacts = vec![
        TraitContactData { id: "20".into(), contact_type: "job".into(), count: 1, color: 1, level: 1 },
        TraitContactData { id: "10".into(), contact_type: "race".into(), count: 4, color: 2, level: 2 },
        TraitContactData { id: "21".into(), contact_type: "job".into(), count: 0, color: 0, level: 0 },
        TraitContactData { id: "77".into(), contact_type: "job".into(), count: 3, color: 3, level: 1 },
    ];
    let s = index.trait_summaries(&[piece("101")], &contacts);
    assert_eq!(s.len(), 2);
    assert_eq!(s[0].id, "race-10");
    assert_eq!(s[0].name, "Mage");
    assert_eq!(s[0].color, 2);
    assert_eq!(s[1].id, "job-20");
    assert_eq!(s[1].name, "Blade");
}

#[test]
fn inactive_contacts_fall_back_to_pieces() {
    let index = sample_index();
    let contacts = vec![TraitContactData { id: "20".into(), contact_type: "job".into(), count: 0, color: 0, level: 0 }];
    let s = index.trait_summaries(&[piece("101")], &contacts);
    assert_eq!(s.len(), 1);
    assert_eq!(s[0].id, "job:20");
}

#[test]
fn hero_lookup() {
    let index = sample_index();
    let hero = index.hero("101");
    assert!(hero.is_some());
    assert!(!hero.unwrap().name.is_empty());
    assert!(index.hero("999").is_none());
}

#[test]
fn equipment_lookup() {
    let index = sample_index();
    let equip = index.equipment("2001");
    assert!(equip.is_some());
    assert!(!equip.unwrap().name.is_empty());
    assert!(index.equipment("404").is_none());
}

#[test]
fn trait_lookup() {
    let index = sample_index();
    let first = index.traits.first().expect("traits").checkId.clone();
    let levels = index.trait_levels(&first);
    assert!(!levels.is_empty());
    assert!(levels.windows(2).all(|w| w[0].level <= w[1].level));
}
