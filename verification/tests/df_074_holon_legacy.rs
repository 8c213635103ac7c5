use tcg_bench::cards::df_074_holon_legacy::{NAME, NUMBER, SET};

#[test]
fn df_074_holon_legacy_test_card_identifiers() {
    assert_eq!(SET, "DF");
    assert_eq!(NUMBER, 74);
    assert_eq!(NAME, "Holon Canonical");
}

#[test]
fn df_074_holon_legacy_eval_eval_set_constant() {
    assert_eq!(SET, "DF");
}

#[test]
fn df_074_holon_legacy_eval_eval_number_constant() {
    assert_eq!(NUMBER, 74);
}

#[test]
fn df_074_holon_legacy_eval_eval_name_constant() {
    assert_eq!(NAME, "Holon Canonical");
}
