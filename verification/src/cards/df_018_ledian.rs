//! Ledian δ - Dragon Frontiers #18
use vstd::prelude::*;

verus! {

pub const SET: &'static str = "DF";

pub const NUMBER: u32 = 18;

pub const NAME: &'static str = "Ledian δ";

pub const ABILITY_1_NAME: &'static str = "Prowl";

pub const ABILITY_1_TEXT: &'static str = "Once during your turn, when you play Ledian from your hand to evolve 1 of your Pokémon, you may search your deck for any 1 card and put it into your hand. Shuffle your deck afterward.";

pub const ATTACK_1_NAME: &'static str = "Metal Star";

pub const ATTACK_1_DAMAGE: i32 = 30;

pub const ATTACK_1_TEXT: &'static str = "If Ledian has a Pokémon Tool card attached to it, draw 3 cards.";

} // verus!
