use tcg_bench::cards::df_024_vibrava::{NUMBER, SET};

#[test]
fn df_024_vibrava_test_card_identifiers() {
    assert_eq!(SET, "DF");
    assert_eq!(NUMBER, 24);
}
