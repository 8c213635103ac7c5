//! Quagsire δ - Dragon Frontiers #21
use vstd::prelude::*;

verus! {

pub const SET: &'static str = "DF";

pub const NUMBER: u32 = 21;

pub const NAME: &'static str = "Quagsire δ";

pub const ABILITY_1_NAME: &'static str = "Dig Up";

pub const ABILITY_1_TEXT: &'static str = "Once during your turn, when you play Quagsire from your hand to evolve 1 of your Pokémon, you may search your discard pile for up to 2 Pokémon Tool cards, show them to your opponent, and put them into your hand.";

pub const ATTACK_1_NAME: &'static str = "Pump Out";

pub const ATTACK_1_DAMAGE: i32 = 50;

pub const ATTACK_1_TEXT: &'static str = "If Quagsire has a Pokémon Tool card attached to it, this attack does 50 damage plus 20 more damage.";

/// The extra damage of Pump Out when Quagsire has a Pokémon Tool card attached.
pub const PUMP_OUT_BONUS: i32 = 20;

/// Damage of Pump Out: its base damage, plus the bonus when a Pokémon Tool card is attached.
pub fn pump_out_damage(has_tool: bool) -> (damage: i32)
    ensures
        damage == if has_tool {
            ATTACK_1_DAMAGE + PUMP_OUT_BONUS
        } else {
            ATTACK_1_DAMAGE as int
        },
{
    if has_tool {
        ATTACK_1_DAMAGE + PUMP_OUT_BONUS
    } else {
        ATTACK_1_DAMAGE
    }
}

} // verus!
