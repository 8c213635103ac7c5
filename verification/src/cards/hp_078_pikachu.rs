//! Pikachu - Holon Phantoms #78
use crate::game::{GameState, ask_coin_flip, coin_flip_asked, owner_of_active};
use crate::model::CardInstanceId;
use vstd::prelude::*;

verus! {

pub const SET: &'static str = "HP";

pub const NUMBER: u32 = 78;

pub const NAME: &'static str = "Pikachu";

pub const QUICK_ATTACK_BASE: i32 = 20;

pub const QUICK_ATTACK_BONUS: i32 = 10;

/// Damage of Quick Attack: the base damage, plus the bonus when the coin came up heads.
pub fn quick_attack_damage(heads: bool) -> (damage: i32)
    ensures
        damage == if heads { QUICK_ATTACK_BASE + QUICK_ATTACK_BONUS } else { QUICK_ATTACK_BASE as int },
{
    if heads {
        QUICK_ATTACK_BASE + QUICK_ATTACK_BONUS
    } else {
        QUICK_ATTACK_BASE
    }
}

/// Thunder Wave: the attacker's owner flips a coin to paralyze the Defending
/// Pokémon. `false`, and nothing asked, when the attacker is no side's Active Pokémon.
pub fn execute_thunder_wave(game: &mut GameState, attacker_id: CardInstanceId) -> (r: bool)
    ensures
        r == owner_of_active(old(game).players@, attacker_id) is Some,
        final(game).players == old(game).players,
        final(game).card_meta@ == old(game).card_meta@,
        match owner_of_active(old(game).players@, attacker_id) {
            Some((player, _)) => coin_flip_asked(final(game).pending_prompt, player, "Paralyze the Defending Pokemon"@),
            None => final(game).pending_prompt == old(game).pending_prompt,
        },
{
    ask_coin_flip(game, attacker_id, "Paralyze the Defending Pokemon")
}

} // verus!
