//! Togetic δ - Dragon Frontiers #11
use vstd::prelude::*;

verus! {

pub const SET: &'static str = "DF";

pub const NUMBER: u32 = 11;

pub const NAME: &'static str = "Togetic δ";

pub const ATTACK_1_NAME: &'static str = "Delta Copy";

pub const ATTACK_1_DAMAGE: i32 = 0;

pub const ATTACK_1_TEXT: &'static str = "Choose an attack on 1 of your opponent's Pokémon in play that has δ on its card. Delta Copy copies that attack except for its Energy cost. (You must still do anything else required for that attack.) Togetic performs that attack.";

pub const ATTACK_2_NAME: &'static str = "Wave Splash";

pub const ATTACK_2_DAMAGE: i32 = 30;

} // verus!
