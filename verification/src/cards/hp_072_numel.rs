//! Numel - Holon Phantoms #72
use crate::game::{GameState, ask_coin_flip, coin_flip_asked, owner_of_active};
use crate::model::CardInstanceId;
use vstd::prelude::*;

verus! {

pub const SET: &'static str = "HP";

pub const NUMBER: u32 = 72;

pub const NAME: &'static str = "Numel";

pub const FLARE_DAMAGE: i32 = 20;

/// Singe: the attacker's owner flips a coin to burn the Defending Pokémon.
/// `false`, and nothing asked, when the attacker is no side's Active Pokémon.
pub fn execute_singe_burn(game: &mut GameState, attacker_id: CardInstanceId) -> (r: bool)
    ensures
        r == owner_of_active(old(game).players@, attacker_id) is Some,
        final(game).players == old(game).players,
        final(game).card_meta@ == old(game).card_meta@,
        match owner_of_active(old(game).players@, attacker_id) {
            Some((player, _)) => coin_flip_asked(final(game).pending_prompt, player, "Burn the Defending Pokemon"@),
            None => final(game).pending_prompt == old(game).pending_prompt,
        },
{
    ask_coin_flip(game, attacker_id, "Burn the Defending Pokemon")
}

} // verus!
