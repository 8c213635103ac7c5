//! Altaria ex δ - Dragon Frontiers #90
use vstd::prelude::*;

verus! {

pub const SET: &'static str = "DF";

pub const NUMBER: u32 = 90;

pub const NAME: &'static str = "Altaria ex δ";

pub const ABILITY_1_NAME: &'static str = "Extra Boost";

pub const ABILITY_1_TEXT: &'static str = "Once during your turn (before your attack), you may attach a basic Energy card from your hand to 1 of your Stage 2 Pokémon-ex. This power can't be used if Altaria ex is affected by a Special Condition.";

pub const ATTACK_1_NAME: &'static str = "Healing Light";

pub const ATTACK_1_DAMAGE: i32 = 60;

pub const ATTACK_1_TEXT: &'static str = "Remove 1 damage counter from each of your Pokémon.";

} // verus!
