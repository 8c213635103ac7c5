use tcg_bench::cards::df_024_vibrava::{psychic_wing_active, psychic_wing_retreat_reduction, quick_blow_damage, quick_blow_damage_for};
use tcg_bench::cards::hp_072_numel::execute_singe_burn;
use tcg_bench::cards::hp_078_pikachu::{execute_thunder_wave, quick_attack_damage};
use tcg_bench::cards::hp_094_darkness_energy::{darkness_energy_bonus, type_key};
use tcg_bench::game::{find_owner, CardInstance, GameState, PlayerState, PokemonSlot};
use tcg_bench::model::{CardInstanceId, PlayerId, Prompt, Stage, Type};
use tcg_bench::registry::{CardMeta, CardMetaMap};

fn id(n: u64) -> CardInstanceId {
    CardInstanceId::new(n)
}

fn inst(n: u64, def_id: &str, owner: PlayerId) -> CardInstance {
    CardInstance { id: id(n), def_id: def_id.to_string(), owner }
}

fn meta(name: &str, is_energy: bool, energy_kind: Option<&str>, types: Vec<Type>) -> CardMeta {
    CardMeta {
        name: name.to_string(),
        is_basic: true,
        is_tool: false,
        is_stadium: false,
        is_pokemon: !is_energy,
        is_energy,
        hp: if is_energy { 0 } else { 100 },
        energy_kind: energy_kind.map(|k| k.to_string()),
        provides: vec![],
        trainer_kind: None,
        is_ex: false,
        is_star: false,
        is_delta: false,
        stage: Stage::Basic,
        types,
        weakness: None,
        resistance: None,
        retreat_cost: Some(1),
        trainer_effect: None,
        evolves_from: None,
        attacks: vec![],
        card_type: String::new(),
        delta_species: false,
    }
}

fn slot(card: CardInstance, energy: Vec<CardInstance>) -> PokemonSlot {
    PokemonSlot { card, attached_energy: energy, attached_tool: None, hp: 100, damage_counters: 0 }
}

fn game() -> GameState {
    let mut m = CardMetaMap::new();
    m.insert("psy".to_string(), meta("Psychic Energy", true, Some("Psychic"), vec![]));
    m.insert("dark".to_string(), meta("Darkness Energy", true, Some("Special"), vec![]));
    m.insert("vibrava".to_string(), meta("Vibrava δ", false, None, vec![Type::Psychic]));
    m.insert("tyranitar".to_string(), meta("Dark Tyranitar", false, None, vec![Type::Darkness]));
    m.insert("mightyena".to_string(), meta("Mightyena", false, None, vec![Type::Darkness]));
    let p1 = PlayerState {
        active: Some(slot(inst(1, "vibrava", PlayerId::P1), vec![inst(2, "psy", PlayerId::P1)])),
        bench: vec![slot(inst(3, "vibrava", PlayerId::P1), vec![])],
    };
    let p2 = PlayerState {
        active: Some(slot(
            inst(4, "tyranitar", PlayerId::P2),
            vec![inst(5, "dark", PlayerId::P2), inst(6, "dark", PlayerId::P2), inst(7, "psy", PlayerId::P2)],
        )),
        bench: vec![slot(inst(8, "mightyena", PlayerId::P2), vec![inst(9, "dark", PlayerId::P2)])],
    };
    GameState::new([p1, p2], m, 11)
}

#[test]
fn psychic_wing_needs_psychic_energy() {
    let g = game();
    assert!(psychic_wing_active(&g, id(1)));
    assert!(!psychic_wing_active(&g, id(3)));
    assert!(!psychic_wing_active(&g, id(99)));
    assert!(psychic_wing_active(&g, id(4)));
    assert_eq!(psychic_wing_retreat_reduction(&g, id(1), true), -1);
    assert_eq!(psychic_wing_retreat_reduction(&g, id(1), false), 0);
    assert_eq!(psychic_wing_retreat_reduction(&g, id(3), true), 0);
}

#[test]
fn quick_blow_is_thirty_or_fifty() {
    let mut g = game();
    for _ in 0..20 {
        let d = quick_blow_damage(&mut g, id(1));
        assert!(d == 30 || d == 50);
    }
    assert_eq!(quick_blow_damage_for(true), 50);
    assert_eq!(quick_blow_damage_for(false), 30);
}

#[test]
fn quick_attack_damage_values() {
    assert_eq!(quick_attack_damage(true), 30);
    assert_eq!(quick_attack_damage(false), 20);
}

#[test]
fn singe_asks_the_owner_for_a_coin_flip() {
    let mut g = game();
    assert!(execute_singe_burn(&mut g, id(4)));
    let pending = g.pending_prompt.clone().unwrap();
    assert_eq!(pending.for_player, PlayerId::P2);
    assert_eq!(
        pending.prompt,
        Prompt::CoinFlipForEffect { player: PlayerId::P2, effect_description: "Burn the Defending Pokemon".to_string() }
    );
}

#[test]
fn thunder_wave_needs_an_active_attacker() {
    let mut g = game();
    assert!(!execute_thunder_wave(&mut g, id(3)));
    assert!(g.pending_prompt.is_none());
    assert!(execute_thunder_wave(&mut g, id(1)));
    match g.pending_prompt.clone().unwrap().prompt {
        Prompt::CoinFlipForEffect { player, effect_description } => {
            assert_eq!(player, PlayerId::P1);
            assert_eq!(effect_description, "Paralyze the Defending Pokemon");
        }
        other => panic!("unexpected {:?}", other),
    }
}

#[test]
fn owners_of_actives() {
    let g = game();
    assert_eq!(find_owner(&g, id(1)), Some((PlayerId::P1, 0)));
    assert_eq!(find_owner(&g, id(4)), Some((PlayerId::P2, 1)));
    assert_eq!(find_owner(&g, id(8)), None);
}

#[test]
fn darkness_energy_bonus_counts_special_darkness() {
    let g = game();
    assert_eq!(darkness_energy_bonus(&g, id(4)), 20);
    assert_eq!(darkness_energy_bonus(&g, id(1)), 0);
    assert_eq!(darkness_energy_bonus(&g, id(8)), 0);
    assert_eq!(type_key(Type::Darkness), "darkness");
}
