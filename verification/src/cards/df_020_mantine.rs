//! Mantine δ - Dragon Frontiers #20
use vstd::prelude::*;

verus! {

pub const SET: &'static str = "DF";

pub const NUMBER: u32 = 20;

pub const NAME: &'static str = "Mantine δ";

pub const ABILITY_1_NAME: &'static str = "Power Circulation";

pub const ABILITY_1_TEXT: &'static str = "Once during your turn (before your attack), you may search your discard pile for a basic Energy card, show it to your opponent, and put it on top of your deck. If you do, put 1 damage counter on Mantine. This power can't be used if Mantine is affected by a Special Condition.";

pub const ATTACK_1_NAME: &'static str = "Spiral Drain";

pub const ATTACK_1_DAMAGE: i32 = 10;

pub const ATTACK_1_TEXT: &'static str = "Remove 1 damage counter from Mantine.";

} // verus!
