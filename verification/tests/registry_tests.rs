use tcg_bench::model::{Stage, Type};
use tcg_bench::registry::{build_card_meta_map, card_meta_for, create_attack, get_card_meta};

#[test]
fn registry_knows_ralts_case_insensitively() {
    let meta = get_card_meta("DF-061-Ralts").expect("Ralts is registered");
    assert_eq!(meta.name, "Ralts δ");
    assert_eq!(meta.hp, 50);
    assert!(meta.is_basic);
    assert!(meta.is_pokemon);
    assert_eq!(meta.stage, Stage::Basic);
    assert_eq!(meta.types, vec![Type::Psychic]);
    assert_eq!(meta.retreat_cost, Some(1));
    assert_eq!(meta.attacks.len(), 2);
    assert_eq!(meta.attacks[1].name, "Psychic Boom");
    assert_eq!(meta.attacks[1].damage, 10);
    assert_eq!(meta.attacks[1].cost.types, vec![Type::Psychic, Type::Colorless]);
    assert_eq!(meta.card_type, "Pokemon");
}

#[test]
fn registry_evolution_lines() {
    let kirlia = get_card_meta("df-033-kirlia").unwrap();
    assert_eq!(kirlia.evolves_from, Some("Ralts".to_string()));
    assert_eq!(kirlia.stage, Stage::Stage1);
    let gardevoir = get_card_meta("df-093-gardevoir-ex").unwrap();
    assert!(gardevoir.is_ex);
    assert_eq!(gardevoir.stage, Stage::Stage2);
    assert_eq!(gardevoir.hp, 150);
    assert_eq!(gardevoir.retreat_cost, Some(2));
}

#[test]
fn registry_trainers() {
    let tool = get_card_meta("df-072-buffer-piece").unwrap();
    assert!(tool.is_tool);
    assert!(!tool.is_pokemon);
    assert_eq!(tool.trainer_kind, Some("Pokemon Tool".to_string()));
    assert_eq!(tool.card_type, "Trainer");
    let reporter = get_card_meta("df-082-tv-reporter").unwrap();
    assert_eq!(reporter.trainer_kind, Some("Supporter".to_string()));
    assert_eq!(reporter.hp, 0);
}

#[test]
fn registry_basic_energy_schemes() {
    let e = get_card_meta("energy-psychic").unwrap();
    assert!(e.is_energy);
    assert_eq!(e.provides, vec![Type::Psychic]);
    assert_eq!(e.energy_kind, Some("Basic".to_string()));
    assert_eq!(e.name, "energy-psychic");
    let odd = get_card_meta("energy-rainbow").unwrap();
    assert_eq!(odd.provides, vec![Type::Colorless]);
    let hp = get_card_meta("HP-109-Psychic-Energy").unwrap();
    assert_eq!(hp.provides, vec![Type::Psychic]);
    assert_eq!(hp.name, "HP-109-Psychic-Energy");
    let hp_dark = get_card_meta("hp-105-darkness-energy").unwrap();
    assert_eq!(hp_dark.provides, vec![Type::Darkness]);
}

#[test]
fn registry_unknown_card() {
    assert!(get_card_meta("df-999-missingno").is_none());
    assert!(card_meta_for("X", "df-024-vibrava").is_some());
    assert!(card_meta_for("X", "DF-024-VIBRAVA").is_none());
}

#[test]
fn create_attack_has_no_effect() {
    let a = create_attack("Bite", 10, Type::Colorless, 1, vec![Type::Colorless]);
    assert_eq!(a.name, "Bite");
    assert_eq!(a.damage, 10);
    assert_eq!(a.cost.total_energy, 1);
    assert!(a.effect_ast.is_none());
}

#[test]
fn card_meta_map_covers_both_decks_once() {
    let deck1 = vec!["df-061-ralts".to_string(), "df-061-ralts".to_string(), "energy-psychic".to_string()];
    let deck2 = vec!["mystery-card".to_string(), "df-061-ralts".to_string()];
    let map = build_card_meta_map(&deck1, &deck2);
    assert_eq!(map.len(), 3);
    assert!(map.contains_key("df-061-ralts"));
    assert!(map.contains_key("energy-psychic"));
    let fallback = map.get("mystery-card").unwrap();
    assert_eq!(fallback.name, "mystery-card");
    assert_eq!(fallback.hp, 50);
    assert_eq!(fallback.attacks[0].name, "Tackle");
    assert_eq!(fallback.attacks[0].damage, 20);
    assert!(!map.contains_key("df-033-kirlia"));
}

#[test]
fn card_meta_map_insert_replaces() {
    let mut map = tcg_bench::registry::CardMetaMap::new();
    assert_eq!(map.len(), 0);
    map.insert("x".to_string(), get_card_meta("df-061-ralts").unwrap());
    map.insert("x".to_string(), get_card_meta("df-033-kirlia").unwrap());
    assert_eq!(map.len(), 1);
    assert_eq!(map.get("x").unwrap().name, "Kirlia δ");
    assert!(map.get("y").is_none());
}
