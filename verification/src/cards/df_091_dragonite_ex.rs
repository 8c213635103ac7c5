//! Dragonite ex δ - Dragon Frontiers #91
use vstd::prelude::*;

verus! {

pub const SET: &'static str = "DF";

pub const NUMBER: u32 = 91;

pub const NAME: &'static str = "Dragonite ex δ";

pub const ATTACK_1_NAME: &'static str = "Deafen";

pub const ATTACK_1_DAMAGE: i32 = 40;

pub const ATTACK_1_TEXT: &'static str = "Your opponent can't play any Trainer cards (except for Supporter cards) from his or her hand during your opponent's next turn.";

pub const ATTACK_2_NAME: &'static str = "Dragon Roar";

pub const ATTACK_2_DAMAGE: i32 = 0;

pub const ATTACK_2_TEXT: &'static str = "Put 8 damage counters on the Defending Pokémon. If that Pokémon would be Knocked Out by this attack, put any damage counters not necessary to Knock Out the Defending Pokémon on your opponent's Benched Pokémon in any way you like.";

} // verus!
