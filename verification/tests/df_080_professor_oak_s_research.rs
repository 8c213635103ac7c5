use tcg_bench::cards::df_080_professor_oak_s_research::{NAME, NUMBER, SET};

#[test]
fn df_080_professor_oak_s_research_eval_eval_set_constant() {
    assert_eq!(SET, "DF");
}

#[test]
fn df_080_professor_oak_s_research_eval_eval_number_constant() {
    assert_eq!(NUMBER, 80);
}

#[test]
fn df_080_professor_oak_s_research_eval_eval_name_constant() {
    assert_eq!(NAME, "Professor Oak's Research");
}
