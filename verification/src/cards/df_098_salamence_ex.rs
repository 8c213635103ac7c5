//! Salamence ex δ - Dragon Frontiers #98
use vstd::prelude::*;

verus! {

pub const SET: &'static str = "DF";

pub const NUMBER: u32 = 98;

pub const NAME: &'static str = "Salamence ex δ";

pub const ABILITY_1_NAME: &'static str = "Type Shift";

pub const ABILITY_1_TEXT: &'static str = "Once during your turn (before your attack), you may use this power. Salamence ex's type is Fire until the end of your turn.";

pub const ATTACK_1_NAME: &'static str = "Claw Swipe";

pub const ATTACK_1_DAMAGE: i32 = 60;

pub const ATTACK_2_NAME: &'static str = "Dual Stream";

pub const ATTACK_2_DAMAGE: i32 = 80;

pub const ATTACK_2_TEXT: &'static str = "You may do up to 40 damage instead of 80 to the Defending Pokémon. If you do, this attack does 40 damage to 1 of your opponent's Benched Pokémon. (Don't apply Weakness and Resistance for Benched Pokémon.)";

} // verus!
