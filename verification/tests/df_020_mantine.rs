use tcg_bench::cards::df_020_mantine::{ABILITY_1_NAME, ABILITY_1_TEXT, ATTACK_1_DAMAGE, ATTACK_1_NAME, ATTACK_1_TEXT, NAME, NUMBER, SET};

#[test]
fn df_020_mantine_eval_eval_set_constant() {
    assert_eq!(SET, "DF");
}

#[test]
fn df_020_mantine_eval_eval_number_constant() {
    assert_eq!(NUMBER, 20);
}

#[test]
fn df_020_mantine_eval_eval_name_constant() {
    assert_eq!(NAME, "Mantine δ");
}

#[test]
fn df_020_mantine_eval_eval_ability_1_name() {
    assert_eq!(ABILITY_1_NAME, "Power Circulation");
}

#[test]
fn df_020_mantine_eval_eval_attack_1_name() {
    assert_eq!(ATTACK_1_NAME, "Spiral Drain");
}

#[test]
fn df_020_mantine_eval_eval_attack_1_damage() {
    assert_eq!(ATTACK_1_DAMAGE, 10);
}

#[test]
fn df_020_mantine_eval_eval_ability_1_text() {
    assert_eq!(ABILITY_1_TEXT, "Once during your turn (before your attack), you may search your discard pile for a basic Energy card, show it to your opponent, and put it on top of your deck. If you do, put 1 damage counter on Mantine. This power can't be used if Mantine is affected by a Special Condition.");
}

#[test]
fn df_020_mantine_eval_eval_attack_1_text() {
    assert_eq!(ATTACK_1_TEXT, "Remove 1 damage counter from Mantine.");
}
