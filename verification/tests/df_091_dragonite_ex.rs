use tcg_bench::cards::df_091_dragonite_ex::{ATTACK_1_DAMAGE, ATTACK_1_NAME, ATTACK_1_TEXT, ATTACK_2_DAMAGE, ATTACK_2_NAME, ATTACK_2_TEXT, NAME, NUMBER, SET};

#[test]
fn df_091_dragonite_ex_eval_eval_set_constant() {
    assert_eq!(SET, "DF");
}

#[test]
fn df_091_dragonite_ex_eval_eval_number_constant() {
    assert_eq!(NUMBER, 91);
}

#[test]
fn df_091_dragonite_ex_eval_eval_name_constant() {
    assert_eq!(NAME, "Dragonite ex δ");
}

#[test]
fn df_091_dragonite_ex_eval_eval_attack_1_name() {
    assert_eq!(ATTACK_1_NAME, "Deafen");
}

#[test]
fn df_091_dragonite_ex_eval_eval_attack_1_damage() {
    assert_eq!(ATTACK_1_DAMAGE, 40);
}

#[test]
fn df_091_dragonite_ex_eval_eval_attack_2_name() {
    assert_eq!(ATTACK_2_NAME, "Dragon Roar");
}

#[test]
fn df_091_dragonite_ex_eval_eval_attack_2_damage() {
    assert_eq!(ATTACK_2_DAMAGE, 0);
}

#[test]
fn df_091_dragonite_ex_eval_eval_attack_1_text() {
    assert_eq!(ATTACK_1_TEXT, "Your opponent can't play any Trainer cards (except for Supporter cards) from his or her hand during your opponent's next turn.");
}

#[test]
fn df_091_dragonite_ex_eval_eval_attack_2_text() {
    assert_eq!(ATTACK_2_TEXT, "Put 8 damage counters on the Defending Pokémon. If that Pokémon would be Knocked Out by this attack, put any damage counters not necessary to Knock Out the Defending Pokémon on your opponent's Benched Pokémon in any way you like.");
}
