use tcg_bench::cards::df_099_tyranitar_ex::{ATTACK_1_DAMAGE, ATTACK_1_NAME, ATTACK_1_TEXT, ATTACK_2_DAMAGE, ATTACK_2_NAME, ATTACK_2_TEXT, ATTACK_3_DAMAGE, ATTACK_3_NAME, ATTACK_3_TEXT, NAME, NUMBER, SET};

#[test]
fn df_099_tyranitar_ex_eval_eval_set_constant() {
    assert_eq!(SET, "DF");
}

#[test]
fn df_099_tyranitar_ex_eval_eval_number_constant() {
    assert_eq!(NUMBER, 99);
}

#[test]
fn df_099_tyranitar_ex_eval_eval_name_constant() {
    assert_eq!(NAME, "Tyranitar ex δ");
}

#[test]
fn df_099_tyranitar_ex_eval_eval_attack_1_name() {
    assert_eq!(ATTACK_1_NAME, "Electromark");
}

#[test]
fn df_099_tyranitar_ex_eval_eval_attack_1_damage() {
    assert_eq!(ATTACK_1_DAMAGE, 0);
}

#[test]
fn df_099_tyranitar_ex_eval_eval_attack_2_name() {
    assert_eq!(ATTACK_2_NAME, "Hyper Claws");
}

#[test]
fn df_099_tyranitar_ex_eval_eval_attack_2_damage() {
    assert_eq!(ATTACK_2_DAMAGE, 70);
}

#[test]
fn eval_attack_3_name() {
    assert_eq!(ATTACK_3_NAME, "Shock-wave");
}

#[test]
fn eval_attack_3_damage() {
    assert_eq!(ATTACK_3_DAMAGE, 0);
}

#[test]
fn df_099_tyranitar_ex_eval_eval_attack_1_text() {
    assert_eq!(ATTACK_1_TEXT, "Put a Shock-wave marker on 1 of your opponent's Pokémon.");
}

#[test]
fn df_099_tyranitar_ex_eval_eval_attack_2_text() {
    assert_eq!(ATTACK_2_TEXT, "If the Defending Pokémon is a Stage 2 Evolved Pokémon, this attack does 70 damage plus 20 more damage.");
}

#[test]
fn eval_attack_3_text() {
    assert_eq!(ATTACK_3_TEXT, "Choose 1 of your opponent's Pokémon that has any Shock-wave markers on it. That Pokémon is Knocked Out.");
}
