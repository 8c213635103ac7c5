use tcg_bench::cards::df_098_salamence_ex::{ABILITY_1_NAME, ABILITY_1_TEXT, ATTACK_1_DAMAGE, ATTACK_1_NAME, ATTACK_2_DAMAGE, ATTACK_2_NAME, ATTACK_2_TEXT, NAME, NUMBER, SET};

#[test]
fn df_098_salamence_ex_eval_eval_set_constant() {
    assert_eq!(SET, "DF");
}

#[test]
fn df_098_salamence_ex_eval_eval_number_constant() {
    assert_eq!(NUMBER, 98);
}

#[test]
fn df_098_salamence_ex_eval_eval_name_constant() {
    assert_eq!(NAME, "Salamence ex δ");
}

#[test]
fn df_098_salamence_ex_eval_eval_ability_1_name() {
    assert_eq!(ABILITY_1_NAME, "Type Shift");
}

#[test]
fn df_098_salamence_ex_eval_eval_attack_1_name() {
    assert_eq!(ATTACK_1_NAME, "Claw Swipe");
}

#[test]
fn df_098_salamence_ex_eval_eval_attack_1_damage() {
    assert_eq!(ATTACK_1_DAMAGE, 60);
}

#[test]
fn df_098_salamence_ex_eval_eval_attack_2_name() {
    assert_eq!(ATTACK_2_NAME, "Dual Stream");
}

#[test]
fn df_098_salamence_ex_eval_eval_attack_2_damage() {
    assert_eq!(ATTACK_2_DAMAGE, 80);
}

#[test]
fn df_098_salamence_ex_eval_eval_ability_1_text() {
    assert_eq!(ABILITY_1_TEXT, "Once during your turn (before your attack), you may use this power. Salamence ex's type is Fire until the end of your turn.");
}

#[test]
fn df_098_salamence_ex_eval_eval_attack_2_text() {
    assert_eq!(ATTACK_2_TEXT, "You may do up to 40 damage instead of 80 to the Defending Pokémon. If you do, this attack does 40 damage to 1 of your opponent's Benched Pokémon. (Don't apply Weakness and Resistance for Benched Pokémon.)");
}
