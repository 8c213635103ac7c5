//! Tyranitar ex δ - Dragon Frontiers #99
use vstd::prelude::*;

verus! {

pub const SET: &'static str = "DF";

pub const NUMBER: u32 = 99;

pub const NAME: &'static str = "Tyranitar ex δ";

pub const ATTACK_1_NAME: &'static str = "Electromark";

pub const ATTACK_1_DAMAGE: i32 = 0;

pub const ATTACK_1_TEXT: &'static str = "Put a Shock-wave marker on 1 of your opponent's Pokémon.";

pub const ATTACK_2_NAME: &'static str = "Hyper Claws";

pub const ATTACK_2_DAMAGE: i32 = 70;

pub const ATTACK_2_TEXT: &'static str = "If the Defending Pokémon is a Stage 2 Evolved Pokémon, this attack does 70 damage plus 20 more damage.";

pub const ATTACK_3_NAME: &'static str = "Shock-wave";

pub const ATTACK_3_DAMAGE: i32 = 0;

pub const ATTACK_3_TEXT: &'static str = "Choose 1 of your opponent's Pokémon that has any Shock-wave markers on it. That Pokémon is Knocked Out.";

} // verus!
