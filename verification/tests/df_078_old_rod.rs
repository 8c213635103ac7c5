use tcg_bench::cards::df_078_old_rod::{NAME, NUMBER, SET};

#[test]
fn df_078_old_rod_eval_eval_set_constant() {
    assert_eq!(SET, "DF");
}

#[test]
fn df_078_old_rod_eval_eval_number_constant() {
    assert_eq!(NUMBER, 78);
}

#[test]
fn df_078_old_rod_eval_eval_name_constant() {
    assert_eq!(NAME, "Old Rod");
}
