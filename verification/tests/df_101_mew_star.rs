use tcg_bench::cards::df_101_mew_star::{ATTACK_1_DAMAGE, ATTACK_1_NAME, ATTACK_1_TEXT, ATTACK_2_DAMAGE, ATTACK_2_NAME, ATTACK_2_TEXT, NAME, NUMBER, SET};

#[test]
fn df_101_mew_star_eval_eval_set_constant() {
    assert_eq!(SET, "DF");
}

#[test]
fn df_101_mew_star_eval_eval_number_constant() {
    assert_eq!(NUMBER, 101);
}

#[test]
fn df_101_mew_star_eval_eval_name_constant() {
    assert_eq!(NAME, "Mew ★ δ");
}

#[test]
fn df_101_mew_star_eval_eval_attack_1_name() {
    assert_eq!(ATTACK_1_NAME, "Mimicry");
}

#[test]
fn df_101_mew_star_eval_eval_attack_1_damage() {
    assert_eq!(ATTACK_1_DAMAGE, 0);
}

#[test]
fn df_101_mew_star_eval_eval_attack_2_name() {
    assert_eq!(ATTACK_2_NAME, "Rainbow Wave");
}

#[test]
fn df_101_mew_star_eval_eval_attack_2_damage() {
    assert_eq!(ATTACK_2_DAMAGE, 0);
}

#[test]
fn df_101_mew_star_eval_eval_attack_1_text() {
    assert_eq!(ATTACK_1_TEXT, "Choose an attack on 1 of your opponent's Pokémon in play. Mimicry copies that attack. This attack does nothing if Mew Star doesn't have the Energy necessary to use that attack. (You must still do anything else required for that attack.) Mew Star performs that attack.");
}

#[test]
fn df_101_mew_star_eval_eval_attack_2_text() {
    assert_eq!(ATTACK_2_TEXT, "Choose 1 basic Energy card attached to Mew Star. This attack does 20 damage to each of your opponent's Pokémon that is the same type as the basic Energy card that you chose. (Don't apply Weakness and Resistance for Benched Pokémon.)");
}
