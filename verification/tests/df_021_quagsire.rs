use tcg_bench::cards::df_021_quagsire::{ABILITY_1_NAME, ABILITY_1_TEXT, ATTACK_1_DAMAGE, ATTACK_1_NAME, ATTACK_1_TEXT, NAME, NUMBER, SET, pump_out_damage};

#[test]
fn df_021_quagsire_eval_eval_set_constant() {
    assert_eq!(SET, "DF");
}

#[test]
fn df_021_quagsire_eval_eval_number_constant() {
    assert_eq!(NUMBER, 21);
}

#[test]
fn df_021_quagsire_eval_eval_name_constant() {
    assert_eq!(NAME, "Quagsire δ");
}

#[test]
fn df_021_quagsire_eval_eval_ability_1_name() {
    assert_eq!(ABILITY_1_NAME, "Dig Up");
}

#[test]
fn df_021_quagsire_eval_eval_attack_1_name() {
    assert_eq!(ATTACK_1_NAME, "Pump Out");
}

#[test]
fn df_021_quagsire_eval_eval_attack_1_damage() {
    assert_eq!(ATTACK_1_DAMAGE, 50);
}

#[test]
fn eval_pump_out_damage_false() {
    assert_eq!(pump_out_damage(false), 50);
}

#[test]
fn eval_pump_out_damage_true() {
    assert_eq!(pump_out_damage(true), 70);
}

#[test]
fn df_021_quagsire_eval_eval_ability_1_text() {
    assert_eq!(ABILITY_1_TEXT, "Once during your turn, when you play Quagsire from your hand to evolve 1 of your Pokémon, you may search your discard pile for up to 2 Pokémon Tool cards, show them to your opponent, and put them into your hand.");
}

#[test]
fn df_021_quagsire_eval_eval_attack_1_text() {
    assert_eq!(ATTACK_1_TEXT, "If Quagsire has a Pokémon Tool card attached to it, this attack does 50 damage plus 20 more damage.");
}

#[test]
fn eval_pump_out_damage_bonus() {
    assert_eq!(pump_out_damage(false), 50);
    assert_eq!(pump_out_damage(true), 70);
}
