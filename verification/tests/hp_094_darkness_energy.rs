use tcg_bench::cards::hp_094_darkness_energy::{qualifies_for_bonus};

#[test]
fn test_qualifies() {
    assert!(qualifies_for_bonus("Dark Tyranitar", &[]));
    assert!(qualifies_for_bonus("Mightyena", &["darkness".to_string()]));
    assert!(!qualifies_for_bonus("Pikachu", &["lightning".to_string()]));
}
