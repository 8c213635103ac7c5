use tcg_bench::cards::df_077_mr_stone_s_project::{NAME, NUMBER, SET};

#[test]
fn df_077_mr_stone_s_project_eval_eval_set_constant() {
    assert_eq!(SET, "DF");
}

#[test]
fn df_077_mr_stone_s_project_eval_eval_number_constant() {
    assert_eq!(NUMBER, 77);
}

#[test]
fn df_077_mr_stone_s_project_eval_eval_name_constant() {
    assert_eq!(NAME, "Mr. Stone's Project");
}
