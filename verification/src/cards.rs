pub mod df_011_togetic;
pub mod df_018_ledian;
pub mod df_020_mantine;
pub mod df_021_quagsire;
pub mod df_024_vibrava;
pub mod df_029_electabuzz;
pub mod df_073_copycat;
pub mod df_074_holon_legacy;
pub mod df_075_holon_mentor;
pub mod df_077_mr_stone_s_project;
pub mod df_078_old_rod;
pub mod df_080_professor_oak_s_research;
pub mod df_090_altaria_ex;
pub mod df_091_dragonite_ex;
pub mod df_098_salamence_ex;
pub mod df_099_tyranitar_ex;
pub mod df_101_mew_star;
pub mod hp_072_numel;
pub mod hp_078_pikachu;
pub mod hp_094_darkness_energy;
