use tcg_bench::candidate_ai::{desc_order, score_energy_target, score_starter, CandidateAi};
use tcg_bench::model::{
    Action, ActionHints, Attack, AttackCost, CardInstanceId, CardView, GameView, Phase, PlayerId, PokemonView, Prompt,
    Resistance, Type, Weakness,
};
use tcg_bench::random_ai::{best_attack_index, RandomAi};
use tcg_bench::random_ai_v2::RandomAiV2;
use tcg_bench::random_ai_v3::{attack_score_vs, expected_damage_vs, is_active_unhealthy, RandomAiV3};

fn id(n: u64) -> CardInstanceId {
    CardInstanceId::new(n)
}

fn attack(name: &str, damage: u16, attack_type: Type, energy: u8) -> Attack {
    Attack {
        name: name.to_string(),
        damage,
        attack_type,
        cost: AttackCost { total_energy: energy, types: vec![Type::Colorless; energy as usize] },
        effect_ast: None,
    }
}

fn card(n: u64, name: &str) -> CardView {
    CardView { id: id(n), def_id: format!("def-{}", n), name: name.to_string() }
}

fn pokemon(n: u64, hp: u16, damage_counters: u16, energy: usize) -> PokemonView {
    PokemonView {
        card: card(n, "Mon"),
        hp,
        damage_counters,
        attached_energy: (0..energy).map(|k| card(1000 + n * 10 + k as u64, "Energy")).collect(),
        types: vec![Type::Psychic],
        special_conditions: vec![],
        weakness: None,
        resistance: None,
        attacks: vec![attack("Hit", 30, Type::Colorless, 1)],
    }
}

fn hints() -> ActionHints {
    ActionHints {
        playable_basic_ids: vec![id(1)],
        playable_energy_ids: vec![id(2)],
        playable_evolution_ids: vec![],
        playable_trainer_ids: vec![],
        attach_targets: vec![id(10), id(11)],
        evolve_targets_by_card_id: vec![],
        usable_attacks: vec![attack("Small", 10, Type::Colorless, 1), attack("Big", 40, Type::Colorless, 3)],
        can_declare_attack: true,
        can_end_turn: true,
    }
}

fn my_turn_view() -> GameView {
    GameView {
        player_id: PlayerId::P1,
        current_player: PlayerId::P1,
        phase: Phase::Main,
        pending_prompt: None,
        my_active: Some(pokemon(10, 60, 0, 1)),
        my_bench: vec![pokemon(11, 50, 1, 0)],
        my_hand: vec![card(1, "Pichu"), card(2, "Energy")],
        my_deck_count: 40,
        my_prizes_count: 6,
        opponent_active: Some(pokemon(20, 50, 0, 0)),
        opponent_bench: vec![pokemon(21, 30, 1, 0)],
        opponent_hand_count: 7,
        opponent_deck_count: 40,
        opponent_prizes_count: 6,
        action_hints: hints(),
    }
}

fn last_is_end_turn(actions: &[Action]) -> bool {
    matches!(actions.last(), Some(Action::EndTurn))
}

#[test]
fn every_policy_ends_its_turn() {
    let view = my_turn_view();
    assert!(last_is_end_turn(&RandomAi::new(1).propose_free_actions(&view)));
    assert!(last_is_end_turn(&RandomAiV2::new(2).propose_free_actions(&view)));
    assert!(last_is_end_turn(&RandomAiV3::new(3).propose_free_actions(&view)));
    assert!(last_is_end_turn(&CandidateAi::new(4).propose_free_actions(&view)));
}

#[test]
fn no_plan_on_the_opponents_turn() {
    let mut view = my_turn_view();
    view.current_player = PlayerId::P2;
    assert!(RandomAi::new(1).propose_free_actions(&view).is_empty());
    assert!(RandomAiV2::new(2).propose_free_actions(&view).is_empty());
    assert!(RandomAiV3::new(3).propose_free_actions(&view).is_empty());
    assert!(CandidateAi::new(4).propose_free_actions(&view).is_empty());
}

#[test]
fn first_policy_plan_shape() {
    let view = my_turn_view();
    let plan = RandomAi::new(7).propose_free_actions(&view);
    assert_eq!(plan.len(), 4);
    assert_eq!(plan[0], Action::PlayBasic { card_id: id(1) });
    match &plan[1] {
        Action::AttachEnergy { energy_id, target_id } => {
            assert_eq!(*energy_id, id(2));
            assert!(*target_id == id(10) || *target_id == id(11));
        }
        other => panic!("unexpected {:?}", other),
    }
    match &plan[2] {
        Action::DeclareAttack { attack } => assert_eq!(attack.name, "Big"),
        other => panic!("unexpected {:?}", other),
    }
}

#[test]
fn best_attack_prefers_damage_then_cheapness() {
    let attacks = vec![
        attack("A", 30, Type::Colorless, 2),
        attack("B", 30, Type::Colorless, 1),
        attack("C", 20, Type::Colorless, 0),
        attack("D", 30, Type::Colorless, 1),
    ];
    assert_eq!(best_attack_index(&attacks), Some(3));
    assert_eq!(best_attack_index(&[]), None);
}

#[test]
fn expected_damage_applies_weakness_and_resistance() {
    let mut defender = pokemon(20, 100, 0, 0);
    defender.weakness = Some(Weakness { type_: Type::Fire, multiplier: 2 });
    defender.resistance = Some(Resistance { type_: Type::Water, value: 30 });
    assert_eq!(expected_damage_vs(&attack("Flame", 40, Type::Fire, 2), Some(&defender)), 80);
    assert_eq!(expected_damage_vs(&attack("Splash", 20, Type::Water, 1), Some(&defender)), 0);
    assert_eq!(expected_damage_vs(&attack("Splash", 50, Type::Water, 1), Some(&defender)), 20);
    assert_eq!(expected_damage_vs(&attack("Tackle", 10, Type::Colorless, 1), None), 10);
}

#[test]
fn attack_score_rewards_knock_outs() {
    let defender = pokemon(20, 50, 2, 0);
    assert_eq!(attack_score_vs(&attack("Hit", 30, Type::Colorless, 1), Some(&defender)), 30 * 100 - 20 + 100000);
    assert_eq!(attack_score_vs(&attack("Tap", 20, Type::Colorless, 2), Some(&defender)), 2000 - 40);
}

#[test]
fn unhealthy_active_detection() {
    let mut view = my_turn_view();
    assert!(!is_active_unhealthy(&view));
    view.my_active = Some(pokemon(10, 100, 6, 0));
    assert!(is_active_unhealthy(&view));
    view.my_active = Some(pokemon(10, 100, 5, 0));
    assert!(!is_active_unhealthy(&view));
}

#[test]
fn third_policy_replaces_with_most_energy() {
    let mut view = my_turn_view();
    view.my_bench = vec![pokemon(30, 60, 0, 1), pokemon(31, 60, 0, 2), pokemon(32, 80, 0, 2)];
    let mut ai = RandomAiV3::new(5);
    assert_eq!(ai.choose_new_active_best(&view, &[]), Some(id(32)));
    assert_eq!(ai.choose_new_active_best(&view, &[id(30), id(31)]), Some(id(31)));
}

#[test]
fn third_policy_targets_weakest_opponents() {
    let view = my_turn_view();
    let mut ai = RandomAiV3::new(5);
    assert_eq!(ai.pick_opponent_targets_low_hp(&view, &[id(20), id(21)], 1), vec![id(21)]);
    assert_eq!(ai.pick_own_targets_low_energy(&view, &[id(10), id(11)], 1), vec![id(11)]);
}

#[test]
fn prompt_for_another_player_ends_turn() {
    let view = my_turn_view();
    let prompt = Prompt::ChooseNewActive { player: PlayerId::P2, options: vec![id(11)] };
    assert_eq!(RandomAi::new(1).propose_prompt_response(&view, &prompt), vec![Action::EndTurn]);
    assert_eq!(CandidateAi::new(1).propose_prompt_response(&view, &prompt), vec![Action::EndTurn]);
}

#[test]
fn candidate_scores() {
    let attacks = vec![attack("Hit", 30, Type::Colorless, 1), attack("Slam", 60, Type::Colorless, 3)];
    assert_eq!(score_starter(60, 1, 1, &attacks), 50 + (120 - 9));
    assert_eq!(score_starter(60, 0, 3, &attacks), 60 + (120 - 9 + 15));
    assert_eq!(score_energy_target(id(1), id(1), &attacks, 1), (120 - 12 - 6) + 25);
    assert_eq!(score_energy_target(id(1), id(2), &[], 0), 0);
}

#[test]
fn desc_order_is_stable() {
    assert_eq!(desc_order(&[5, 9, 5, 7], 4), vec![1, 3, 0, 2]);
    assert_eq!(desc_order(&[5, 9, 5, 7], 2), vec![1, 3]);
    assert_eq!(desc_order(&[], 3), Vec::<usize>::new());
}

#[test]
fn candidate_weighted_choice() {
    let mut ai = CandidateAi::new(9);
    assert_eq!(ai.weighted_choice(&[]), None);
    assert_eq!(ai.weighted_choice(&[(id(3), 0), (id(4), -2)]), Some(id(3)));
    assert_eq!(ai.weighted_choice(&[(id(3), 0), (id(4), 5)]), Some(id(4)));
}

#[test]
fn candidate_bench_basics_by_score() {
    let mut view = my_turn_view();
    view.my_hand = vec![card(1, "Pichu"), card(2, "Bulbasaur"), card(3, "Mew")];
    let mut ai = CandidateAi::new(1);
    assert_eq!(ai.choose_bench_basics(&view, &[id(1), id(2), id(3)], 2, 5), vec![id(2), id(1)]);
    assert_eq!(ai.choose_bench_basics(&view, &[id(1), id(2), id(3)], 0, 5), vec![id(2)]);
}

#[test]
fn candidate_starter_falls_back_to_first_option() {
    let view = my_turn_view();
    let mut ai = CandidateAi::new(1);
    assert_eq!(ai.select_starter(&view, &[id(77), id(78)]), Some(id(77)));
    assert_eq!(ai.select_starter(&view, &[id(11)]), Some(id(11)));
    assert_eq!(ai.select_starter(&view, &[]), None);
}

#[test]
fn candidate_attack_prompt_lists_all() {
    let view = my_turn_view();
    let prompt = Prompt::ChooseAttack { attacks: hints().usable_attacks };
    let r = CandidateAi::new(1).propose_prompt_response(&view, &prompt);
    assert_eq!(r.len(), 3);
    match (&r[0], &r[1], &r[2]) {
        (Action::DeclareAttack { attack: a }, Action::DeclareAttack { attack: b }, Action::DeclareAttack { attack: c }) => {
            assert_eq!(a.name, "Big");
            assert_eq!(b.name, "Small");
            assert_eq!(c.name, "Big");
        }
        _ => panic!("expected attacks"),
    }
}

#[test]
fn shuffled_actions_keep_their_items_and_vary() {
    let items: Vec<Action> = (1..=6).map(|n| Action::PlayBasic { card_id: id(n) }).collect();
    let mut moved = false;
    for seed in 0..10 {
        let mut actions = items.clone();
        RandomAi::new(seed).shuffle_actions(&mut actions);
        let mut sorted: Vec<u64> = actions
            .iter()
            .map(|a| match a {
                Action::PlayBasic { card_id } => card_id.value(),
                _ => 0,
            })
            .collect();
        if actions != items {
            moved = true;
        }
        sorted.sort();
        assert_eq!(sorted, vec![1, 2, 3, 4, 5, 6]);
    }
    assert!(moved);
}

fn foreign_prompts() -> Vec<Prompt> {
    vec![
        Prompt::ChooseNewActive { player: PlayerId::P2, options: vec![id(11)] },
        Prompt::ChoosePokemonInPlay { player: PlayerId::P2, options: vec![id(20), id(21)], min: 1, max: 1 },
        Prompt::ReorderDeckTop { player: PlayerId::P2, options: vec![id(30), id(31), id(32)] },
    ]
}

fn starter_prompt() -> Prompt {
    Prompt::ChooseStartingActive { options: (1..=8).map(id).collect() }
}

fn starter_view() -> GameView {
    let mut v = my_turn_view();
    v.action_hints.playable_basic_ids = (1..=8).map(id).collect();
    v.my_hand = (1..=8).map(|n| card(n, "Basic")).collect();
    v
}

#[test]
fn same_seed_same_draws() {
    let items: Vec<Action> = (1..=8).map(|n| Action::PlayBasic { card_id: id(n) }).collect();
    for seed in 0..5 {
        let mut a = items.clone();
        let mut b = items.clone();
        RandomAi::new(seed).shuffle_actions(&mut a);
        RandomAi::new(seed).shuffle_actions(&mut b);
        assert_eq!(a, b);
        let v = starter_view();
        assert_eq!(
            RandomAiV2::new(seed).propose_prompt_response(&v, &starter_prompt()),
            RandomAiV2::new(seed).propose_prompt_response(&v, &starter_prompt())
        );
    }
}

#[test]
fn foreign_prompts_leave_the_generator_alone() {
    let items: Vec<Action> = (1..=8).map(|n| Action::PlayBasic { card_id: id(n) }).collect();
    let view = my_turn_view();
    let sv = starter_view();
    for seed in 0..5 {
        let mut fresh1 = RandomAi::new(seed);
        let mut used1 = RandomAi::new(seed);
        let mut fresh2 = RandomAiV2::new(seed);
        let mut used2 = RandomAiV2::new(seed);
        let mut fresh3 = RandomAiV3::new(seed);
        let mut used3 = RandomAiV3::new(seed);
        let mut fresh4 = CandidateAi::new(seed);
        let mut used4 = CandidateAi::new(seed);
        for p in foreign_prompts() {
            assert_eq!(used1.propose_prompt_response(&view, &p), vec![Action::EndTurn]);
            assert_eq!(used2.propose_prompt_response(&view, &p), vec![Action::EndTurn]);
            assert_eq!(used3.propose_prompt_response(&view, &p), vec![Action::EndTurn]);
            let expected = if matches!(p, Prompt::ChooseNewActive { .. }) { vec![Action::EndTurn] } else { vec![] };
            assert_eq!(used4.propose_prompt_response(&view, &p), expected);
        }
        let mut a = items.clone();
        let mut b = items.clone();
        fresh1.shuffle_actions(&mut a);
        used1.shuffle_actions(&mut b);
        assert_eq!(a, b);
        assert_eq!(
            fresh2.propose_prompt_response(&sv, &starter_prompt()),
            used2.propose_prompt_response(&sv, &starter_prompt())
        );
        assert_eq!(fresh3.choose_basic_action(&sv), used3.choose_basic_action(&sv));
        assert_eq!(
            fresh4.propose_prompt_response(&sv, &starter_prompt()),
            used4.propose_prompt_response(&sv, &starter_prompt())
        );
    }
}
