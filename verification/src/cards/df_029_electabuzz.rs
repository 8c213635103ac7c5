//! Electabuzz δ - Dragon Frontiers #29
use vstd::prelude::*;

verus! {

pub const SET: &'static str = "DF";

pub const NUMBER: u32 = 29;

pub const NAME: &'static str = "Electabuzz δ";

pub const ABILITY_1_NAME: &'static str = "Power of Evolution";

pub const ABILITY_1_TEXT: &'static str = "Once during your turn (before your attack), if Electabuzz is an Evolved Pokémon, you may draw a card from the bottom of your deck. This power can't be used if Electabuzz is affected by a Special Condition.";

pub const ATTACK_1_NAME: &'static str = "Swift";

pub const ATTACK_1_DAMAGE: i32 = 30;

pub const ATTACK_1_TEXT: &'static str = "This attack's damage isn't affected by Weakness, Resistance, Poké-Powers, Poké-Bodies, or any other effects on the Defending Pokémon.";

} // verus!
