use tcg_bench::candidate_ai::CandidateAi;
use tcg_bench::model::{
    Action, ActionHints, Attack, AttackCost, CardInstanceId, CardView, GameView, Phase, PlayerId, PokemonView, Prompt,
    SelectionDestination, SpecialCondition, Type,
};
use tcg_bench::random_ai::RandomAi;
use tcg_bench::random_ai_v2::RandomAiV2;
use tcg_bench::random_ai_v3::RandomAiV3;

fn id(n: u64) -> CardInstanceId {
    CardInstanceId::new(n)
}

fn card(n: u64, name: &str) -> CardView {
    CardView { id: id(n), def_id: format!("def-{}", n), name: name.to_string() }
}

fn attack(name: &str, damage: u16, energy: u8) -> Attack {
    Attack {
        name: name.to_string(),
        damage,
        attack_type: Type::Colorless,
        cost: AttackCost { total_energy: energy, types: vec![Type::Colorless; energy as usize] },
        effect_ast: None,
    }
}

fn pokemon(n: u64, hp: u16, energy: usize) -> PokemonView {
    PokemonView {
        card: card(n, "Mon"),
        hp,
        damage_counters: 0,
        attached_energy: (0..energy).map(|k| card(500 + n * 10 + k as u64, "Energy")).collect(),
        types: vec![Type::Colorless],
        special_conditions: vec![],
        weakness: None,
        resistance: None,
        attacks: vec![attack("Hit", 20, 1)],
    }
}

fn view() -> GameView {
    GameView {
        player_id: PlayerId::P1,
        current_player: PlayerId::P1,
        phase: Phase::Setup,
        pending_prompt: None,
        my_active: Some(pokemon(10, 70, 2)),
        my_bench: vec![pokemon(11, 50, 0), pokemon(12, 60, 1)],
        my_hand: vec![card(1, "Basic A"), card(2, "Basic B"), card(3, "Trainer")],
        my_deck_count: 30,
        my_prizes_count: 6,
        opponent_active: Some(pokemon(20, 40, 0)),
        opponent_bench: vec![],
        opponent_hand_count: 5,
        opponent_deck_count: 30,
        opponent_prizes_count: 6,
        action_hints: ActionHints {
            playable_basic_ids: vec![id(1), id(2)],
            playable_energy_ids: vec![],
            playable_evolution_ids: vec![],
            playable_trainer_ids: vec![],
            attach_targets: vec![],
            evolve_targets_by_card_id: vec![],
            usable_attacks: vec![],
            can_declare_attack: false,
            can_end_turn: true,
        },
    }
}

fn prompts() -> Vec<Prompt> {
    vec![
        Prompt::ChooseStartingActive { options: vec![id(3), id(2), id(1)] },
        Prompt::ChooseBenchBasics { options: vec![id(1), id(2)], min: 1, max: 5 },
        Prompt::ChooseAttack { attacks: vec![attack("Hit", 20, 1), attack("Slam", 50, 3)] },
        Prompt::ChooseCardsFromDeck {
            player: PlayerId::P1,
            count: 2,
            options: vec![id(40), id(41), id(42)],
            min: Some(1),
            max: Some(2),
            destination: SelectionDestination::Hand,
            shuffle: true,
        },
        Prompt::ChooseCardsFromDiscard {
            player: PlayerId::P1,
            count: 1,
            options: vec![id(50)],
            min: None,
            max: None,
            destination: SelectionDestination::Hand,
        },
        Prompt::ChoosePokemonInPlay { player: PlayerId::P1, options: vec![id(20), id(11)], min: 1, max: 1 },
        Prompt::ReorderDeckTop { player: PlayerId::P1, options: vec![id(60), id(61)] },
        Prompt::ChooseAttachedEnergy { player: PlayerId::P1, pokemon_id: id(10), count: 1, min: Some(1) },
        Prompt::ChooseCardsFromHand {
            player: PlayerId::P1,
            count: 1,
            options: vec![],
            min: Some(1),
            max: Some(1),
            return_to_deck: false,
        },
        Prompt::ChooseCardsInPlay { player: PlayerId::P1, options: vec![id(11), id(12)], min: 1, max: 2 },
        Prompt::ChoosePrizeCards { player: PlayerId::P1, options: vec![id(70), id(71)], min: 1, max: 1 },
        Prompt::ChooseDefenderAttack {
            player: PlayerId::P1,
            defender_id: id(20),
            attacks: vec!["Bite".to_string(), "Tackle".to_string()],
        },
        Prompt::ChoosePokemonAttack {
            player: PlayerId::P1,
            pokemon_id: id(20),
            attacks: vec!["Bite".to_string()],
        },
        Prompt::ChooseSpecialCondition {
            player: PlayerId::P1,
            options: vec![SpecialCondition::Asleep, SpecialCondition::Poisoned],
        },
        Prompt::ChooseNewActive { player: PlayerId::P1, options: vec![] },
        Prompt::CoinFlipForEffect { player: PlayerId::P1, effect_description: "Flip".to_string() },
    ]
}

#[test]
fn every_policy_answers_every_prompt() {
    let v = view();
    for (k, p) in prompts().iter().enumerate() {
        let seed = k as u64;
        let r1 = RandomAi::new(seed).propose_prompt_response(&v, p);
        let r2 = RandomAiV2::new(seed).propose_prompt_response(&v, p);
        let r3 = RandomAiV3::new(seed).propose_prompt_response(&v, p);
        let r4 = CandidateAi::new(seed).propose_prompt_response(&v, p);
        if matches!(p, Prompt::CoinFlipForEffect { .. }) {
            assert!(r1.is_empty() && r2.is_empty() && r3.is_empty() && r4.is_empty());
        } else {
            assert!(!r1.is_empty(), "first policy, prompt {}", k);
            assert!(!r2.is_empty(), "second policy, prompt {}", k);
            assert!(!r3.is_empty(), "third policy, prompt {}", k);
        }
    }
}

#[test]
fn starting_active_must_be_a_playable_basic() {
    let v = view();
    let p = Prompt::ChooseStartingActive { options: vec![id(3), id(2), id(1)] };
    assert_eq!(RandomAi::new(1).propose_prompt_response(&v, &p), vec![Action::ChooseActive { card_id: id(2) }]);
    let r2 = RandomAiV2::new(1).propose_prompt_response(&v, &p);
    assert_eq!(r2[0], Action::ChooseActive { card_id: id(2) });
    assert_eq!(r2.len(), 3);
}

#[test]
fn third_policy_targets_the_opponent_first() {
    let v = view();
    let p = Prompt::ChoosePokemonInPlay { player: PlayerId::P1, options: vec![id(11), id(20)], min: 1, max: 1 };
    let r = RandomAiV3::new(3).propose_prompt_response(&v, &p);
    assert_eq!(r, vec![Action::ChoosePokemonTargets { target_ids: vec![id(20)] }]);
}

#[test]
fn new_active_from_the_bench() {
    let v = view();
    let p = Prompt::ChooseNewActive { player: PlayerId::P1, options: vec![] };
    let r1 = RandomAi::new(1).propose_prompt_response(&v, &p);
    assert_eq!(r1[0], Action::ChooseNewActive { card_id: id(11) });
    let r2 = RandomAiV2::new(1).propose_prompt_response(&v, &p);
    assert_eq!(r2[0], Action::ChooseNewActive { card_id: id(12) });
    let r3 = RandomAiV3::new(1).propose_prompt_response(&v, &p);
    assert_eq!(r3[0], Action::ChooseNewActive { card_id: id(12) });
    let r4 = CandidateAi::new(1).propose_prompt_response(&v, &p);
    assert_eq!(r4.len(), 1);
}

#[test]
fn attack_prompt_declares_best_first() {
    let v = view();
    let p = Prompt::ChooseAttack { attacks: vec![attack("Hit", 20, 1), attack("Slam", 50, 3)] };
    for r in [
        RandomAi::new(1).propose_prompt_response(&v, &p),
        RandomAiV2::new(1).propose_prompt_response(&v, &p),
        RandomAiV3::new(1).propose_prompt_response(&v, &p),
    ] {
        assert_eq!(r.len(), 3);
        match &r[0] {
            Action::DeclareAttack { attack } => assert_eq!(attack.name, "Slam"),
            other => panic!("unexpected {:?}", other),
        }
    }
}
