use tcg_bench::cards::df_090_altaria_ex::{ABILITY_1_NAME, ABILITY_1_TEXT, ATTACK_1_DAMAGE, ATTACK_1_NAME, ATTACK_1_TEXT, NAME, NUMBER, SET};

#[test]
fn df_090_altaria_ex_eval_eval_set_constant() {
    assert_eq!(SET, "DF");
}

#[test]
fn df_090_altaria_ex_eval_eval_number_constant() {
    assert_eq!(NUMBER, 90);
}

#[test]
fn df_090_altaria_ex_eval_eval_name_constant() {
    assert_eq!(NAME, "Altaria ex δ");
}

#[test]
fn df_090_altaria_ex_eval_eval_ability_1_name() {
    assert_eq!(ABILITY_1_NAME, "Extra Boost");
}

#[test]
fn df_090_altaria_ex_eval_eval_attack_1_name() {
    assert_eq!(ATTACK_1_NAME, "Healing Light");
}

#[test]
fn df_090_altaria_ex_eval_eval_attack_1_damage() {
    assert_eq!(ATTACK_1_DAMAGE, 60);
}

#[test]
fn df_090_altaria_ex_eval_eval_ability_1_text() {
    assert_eq!(ABILITY_1_TEXT, "Once during your turn (before your attack), you may attach a basic Energy card from your hand to 1 of your Stage 2 Pokémon-ex. This power can't be used if Altaria ex is affected by a Special Condition.");
}

#[test]
fn df_090_altaria_ex_eval_eval_attack_1_text() {
    assert_eq!(ATTACK_1_TEXT, "Remove 1 damage counter from each of your Pokémon.");
}
