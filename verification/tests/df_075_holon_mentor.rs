use tcg_bench::cards::df_075_holon_mentor::{NAME, NUMBER, SET};

#[test]
fn df_075_holon_mentor_eval_eval_set_constant() {
    assert_eq!(SET, "DF");
}

#[test]
fn df_075_holon_mentor_eval_eval_number_constant() {
    assert_eq!(NUMBER, 75);
}

#[test]
fn df_075_holon_mentor_eval_eval_name_constant() {
    assert_eq!(NAME, "Holon Mentor");
}
