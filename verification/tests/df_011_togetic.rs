use tcg_bench::cards::df_011_togetic::{ATTACK_1_DAMAGE, ATTACK_1_NAME, ATTACK_1_TEXT, ATTACK_2_DAMAGE, ATTACK_2_NAME, NAME, NUMBER, SET};

#[test]
fn df_011_togetic_eval_eval_set_constant() {
    assert_eq!(SET, "DF");
}

#[test]
fn df_011_togetic_eval_eval_number_constant() {
    assert_eq!(NUMBER, 11);
}

#[test]
fn df_011_togetic_eval_eval_name_constant() {
    assert_eq!(NAME, "Togetic δ");
}

#[test]
fn df_011_togetic_eval_eval_attack_1_name() {
    assert_eq!(ATTACK_1_NAME, "Delta Copy");
}

#[test]
fn df_011_togetic_eval_eval_attack_1_damage() {
    assert_eq!(ATTACK_1_DAMAGE, 0);
}

#[test]
fn df_011_togetic_eval_eval_attack_2_name() {
    assert_eq!(ATTACK_2_NAME, "Wave Splash");
}

#[test]
fn df_011_togetic_eval_eval_attack_2_damage() {
    assert_eq!(ATTACK_2_DAMAGE, 30);
}

#[test]
fn df_011_togetic_eval_eval_attack_1_text() {
    assert_eq!(ATTACK_1_TEXT, "Choose an attack on 1 of your opponent's Pokémon in play that has δ on its card. Delta Copy copies that attack except for its Energy cost. (You must still do anything else required for that attack.) Togetic performs that attack.");
}
