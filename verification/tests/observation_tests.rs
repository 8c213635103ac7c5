use tcg_bench::model::{
    ActionHints, Attack, AttackCost, CardInstanceId, CardView, GameView, Phase, PlayerId, PokemonView, Prompt,
    SelectionDestination, Type,
};
use tcg_bench::observation::{
    action_kinds, attack_names, available_action_labels, card_name, decimal_string, energy_type_name, extract_card_id, hp_shown, offer_count, offer_name,
    offers, prompt_action_type, prompt_kind_name, prompt_summary, shown_attacks, shown_player, Offer,
};
use tcg_bench::registry::build_card_meta_map;

fn id(n: u64) -> CardInstanceId {
    CardInstanceId::new(n)
}

fn hints() -> ActionHints {
    ActionHints {
        playable_basic_ids: vec![id(1), id(2)],
        playable_energy_ids: vec![id(3)],
        playable_evolution_ids: vec![],
        playable_trainer_ids: vec![id(4)],
        attach_targets: vec![id(10)],
        evolve_targets_by_card_id: vec![],
        usable_attacks: vec![],
        can_declare_attack: true,
        can_end_turn: true,
    }
}

fn pokemon(n: u64, def_id: &str) -> PokemonView {
    PokemonView {
        card: CardView { id: id(n), def_id: def_id.to_string(), name: def_id.to_string() },
        hp: 60,
        damage_counters: 2,
        attached_energy: vec![],
        types: vec![Type::Psychic],
        special_conditions: vec![],
        weakness: None,
        resistance: None,
        attacks: vec![],
    }
}

fn view(phase: Phase) -> GameView {
    GameView {
        player_id: PlayerId::P1,
        current_player: PlayerId::P2,
        phase,
        pending_prompt: None,
        my_active: Some(pokemon(10, "df-061-ralts")),
        my_bench: vec![],
        my_hand: vec![],
        my_deck_count: 40,
        my_prizes_count: 6,
        opponent_active: None,
        opponent_bench: vec![],
        opponent_hand_count: 7,
        opponent_deck_count: 40,
        opponent_prizes_count: 6,
        action_hints: hints(),
    }
}

#[test]
fn extract_card_id_reads_numbers() {
    assert_eq!(extract_card_id("{\"card_id\": 17}"), Some(id(17)));
    assert_eq!(extract_card_id("{\"action\": \"ChooseNewActive\", \"card_id\":\"42\"}"), Some(id(42)));
    assert_eq!(extract_card_id("{\"card_id\":\n\t 007 }"), Some(id(7)));
    assert_eq!(extract_card_id("{\"card_id\": 18446744073709551615}"), Some(id(u64::MAX)));
}

#[test]
fn extract_card_id_rejects() {
    assert_eq!(extract_card_id("{\"cardid\": 17}"), None);
    assert_eq!(extract_card_id("{\"card_id\" 17}"), None);
    assert_eq!(extract_card_id("{\"card_id\": x17}"), None);
    assert_eq!(extract_card_id("{\"card_id\": 18446744073709551616}"), None);
    assert_eq!(extract_card_id(""), None);
}

#[test]
fn prompt_labels() {
    let p = Prompt::ChooseNewActive { player: PlayerId::P1, options: vec![id(5)] };
    assert_eq!(prompt_action_type(&p), "ChooseActive");
    assert_eq!(prompt_kind_name(&p), "ChooseNewActive");
    let flip = Prompt::CoinFlipForEffect { player: PlayerId::P1, effect_description: "x".to_string() };
    assert_eq!(prompt_action_type(&flip), "UnknownPrompt");
    assert_eq!(prompt_kind_name(&flip), "CoinFlipForEffect");
    let deck = Prompt::ChooseCardsFromDeck {
        player: PlayerId::P1,
        count: 1,
        options: vec![id(8), id(9)],
        min: None,
        max: Some(1),
        destination: SelectionDestination::Hand,
        shuffle: true,
    };
    let s = prompt_summary(Some(&deck));
    assert!(s.required);
    assert_eq!(s.action_type, "ChooseCardsFromDeck");
    assert_eq!(s.choices, vec![8, 9]);
    let energy = Prompt::ChooseAttachedEnergy { player: PlayerId::P1, pokemon_id: id(12), count: 1, min: None };
    assert_eq!(prompt_summary(Some(&energy)).choices, vec![12]);
    let none = prompt_summary(None);
    assert!(!none.required);
    assert_eq!(none.action_type, "");
    assert!(none.choices.is_empty());
}

#[test]
fn offers_in_main_phase() {
    let v = view(Phase::Main);
    let o = offers(&v, false);
    assert_eq!(o, vec![Offer::PlayBasic, Offer::AttachEnergy, Offer::PlayTrainer, Offer::DeclareAttack, Offer::EndTurn]);
    assert_eq!(offer_count(&v, Offer::PlayBasic), Some(2));
    assert_eq!(offer_count(&v, Offer::DeclareAttack), Some(0));
    assert_eq!(offer_count(&v, Offer::EndTurn), None);
    assert_eq!(offer_name(Offer::AttachEnergy), "AttachEnergy");
    let after_energy = offers(&v, true);
    assert!(!after_energy.contains(&Offer::AttachEnergy));
}

#[test]
fn offers_outside_main_phase() {
    let v = view(Phase::Attack);
    assert_eq!(offers(&v, false), vec![Offer::DeclareAttack, Offer::EndTurn]);
}

#[test]
fn action_kinds_follow_prompt() {
    let mut v = view(Phase::Main);
    assert_eq!(action_kinds(&v, false), vec!["PlayBasic", "AttachEnergy", "PlayTrainer", "DeclareAttack", "EndTurn"]);
    assert_eq!(shown_player(&v), PlayerId::P2);
    v.pending_prompt = Some(Prompt::ChooseBenchBasics { options: vec![id(1)], min: 0, max: 1 });
    assert_eq!(action_kinds(&v, false), vec!["ChooseBench"]);
    assert_eq!(shown_player(&v), PlayerId::P1);
}

#[test]
fn hp_is_shown_left_and_full() {
    assert_eq!(hp_shown(60, 2), [40, 60]);
    assert_eq!(hp_shown(60, 9), [0, 60]);
}

#[test]
fn type_names() {
    assert_eq!(energy_type_name(Type::Lightning), "Lightning");
    assert_eq!(energy_type_name(Type::Colorless), "Colorless");
}

#[test]
fn attacks_shown_from_metadata() {
    let meta = build_card_meta_map(&["df-061-ralts".to_string()], &[]);
    let v = view(Phase::Main);
    let shown = shown_attacks(&v, &meta);
    assert_eq!(shown.len(), 2);
    assert_eq!(shown[0].name, "Hypnosis");
    assert_eq!(attack_names(&v, &meta), vec!["Hypnosis", "Psychic Boom"]);
    assert_eq!(card_name(&meta, "df-061-ralts"), "Ralts δ");
    assert_eq!(card_name(&meta, "unknown-card"), "unknown-card");
}

#[test]
fn usable_attacks_named_first() {
    let meta = build_card_meta_map(&[], &[]);
    let mut v = view(Phase::Main);
    v.action_hints.usable_attacks = vec![Attack {
        name: "Zap".to_string(),
        damage: 10,
        attack_type: Type::Lightning,
        cost: AttackCost { total_energy: 1, types: vec![Type::Lightning] },
        effect_ast: None,
    }];
    assert_eq!(attack_names(&v, &meta), vec!["Zap"]);
    assert_eq!(shown_attacks(&v, &meta)[0].name, "Zap");
    v.my_active = None;
    assert!(shown_attacks(&v, &meta).is_empty());
}

#[test]
fn action_labels_carry_counts() {
    let v = view(Phase::Main);
    assert_eq!(
        available_action_labels(&v, false),
        vec!["PlayBasic (2)", "AttachEnergy (1)", "PlayTrainer (1)", "Attack (0)", "EndTurn"]
    );
    assert_eq!(available_action_labels(&v, true), vec!["PlayBasic (2)", "PlayTrainer (1)", "Attack (0)", "EndTurn"]);
    assert_eq!(available_action_labels(&view(Phase::Attack), false), vec!["Attack (0)", "EndTurn"]);
}

#[test]
fn decimal_rendering() {
    assert_eq!(decimal_string(0), "0");
    assert_eq!(decimal_string(7), "7");
    assert_eq!(decimal_string(10), "10");
    assert_eq!(decimal_string(1234), "1234");
    assert_eq!(decimal_string(usize::MAX), usize::MAX.to_string());
}

#[test]
fn card_id_written_then_read() {
    for n in [0usize, 5, 42, 1000, 987654321, usize::MAX] {
        let d = decimal_string(n);
        assert_eq!(extract_card_id(&format!("{{\"card_id\": {}}}", d)), Some(id(n as u64)));
        assert_eq!(extract_card_id(&format!("{{\"card_id\": \"{}\"}}", d)), Some(id(n as u64)));
    }
    assert_eq!(extract_card_id("{\"card_id\": -3}"), None);
    assert_eq!(extract_card_id("{\"card_id\": \"abc\"}"), None);
}
