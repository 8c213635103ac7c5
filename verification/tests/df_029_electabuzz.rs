use tcg_bench::cards::df_029_electabuzz::{ABILITY_1_NAME, ABILITY_1_TEXT, ATTACK_1_DAMAGE, ATTACK_1_NAME, ATTACK_1_TEXT, NAME, NUMBER, SET};

#[test]
fn df_029_electabuzz_eval_eval_set_constant() {
    assert_eq!(SET, "DF");
}

#[test]
fn df_029_electabuzz_eval_eval_number_constant() {
    assert_eq!(NUMBER, 29);
}

#[test]
fn df_029_electabuzz_eval_eval_name_constant() {
    assert_eq!(NAME, "Electabuzz δ");
}

#[test]
fn df_029_electabuzz_eval_eval_ability_1_name() {
    assert_eq!(ABILITY_1_NAME, "Power of Evolution");
}

#[test]
fn df_029_electabuzz_eval_eval_attack_1_name() {
    assert_eq!(ATTACK_1_NAME, "Swift");
}

#[test]
fn df_029_electabuzz_eval_eval_attack_1_damage() {
    assert_eq!(ATTACK_1_DAMAGE, 30);
}

#[test]
fn df_029_electabuzz_eval_eval_ability_1_text() {
    assert_eq!(ABILITY_1_TEXT, "Once during your turn (before your attack), if Electabuzz is an Evolved Pokémon, you may draw a card from the bottom of your deck. This power can't be used if Electabuzz is affected by a Special Condition.");
}

#[test]
fn df_029_electabuzz_eval_eval_attack_1_text() {
    assert_eq!(ATTACK_1_TEXT, "This attack's damage isn't affected by Weakness, Resistance, Poké-Powers, Poké-Bodies, or any other effects on the Defending Pokémon.");
}
