use tcg_bench::cards::df_018_ledian::{ABILITY_1_NAME, ABILITY_1_TEXT, ATTACK_1_DAMAGE, ATTACK_1_NAME, ATTACK_1_TEXT, NAME, NUMBER, SET};

#[test]
fn df_018_ledian_eval_eval_set_constant() {
    assert_eq!(SET, "DF");
}

#[test]
fn df_018_ledian_eval_eval_number_constant() {
    assert_eq!(NUMBER, 18);
}

#[test]
fn df_018_ledian_eval_eval_name_constant() {
    assert_eq!(NAME, "Ledian δ");
}

#[test]
fn df_018_ledian_eval_eval_ability_1_name() {
    assert_eq!(ABILITY_1_NAME, "Prowl");
}

#[test]
fn df_018_ledian_eval_eval_attack_1_name() {
    assert_eq!(ATTACK_1_NAME, "Metal Star");
}

#[test]
fn df_018_ledian_eval_eval_attack_1_damage() {
    assert_eq!(ATTACK_1_DAMAGE, 30);
}

#[test]
fn df_018_ledian_eval_eval_ability_1_text() {
    assert_eq!(ABILITY_1_TEXT, "Once during your turn, when you play Ledian from your hand to evolve 1 of your Pokémon, you may search your deck for any 1 card and put it into your hand. Shuffle your deck afterward.");
}

#[test]
fn df_018_ledian_eval_eval_attack_1_text() {
    assert_eq!(ATTACK_1_TEXT, "If Ledian has a Pokémon Tool card attached to it, draw 3 cards.");
}
