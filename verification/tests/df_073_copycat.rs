use tcg_bench::cards::df_073_copycat::{NAME, NUMBER, SET};

#[test]
fn df_073_copycat_eval_eval_set_constant() {
    assert_eq!(SET, "DF");
}

#[test]
fn df_073_copycat_eval_eval_number_constant() {
    assert_eq!(NUMBER, 73);
}

#[test]
fn df_073_copycat_eval_eval_name_constant() {
    assert_eq!(NAME, "Copycat");
}
