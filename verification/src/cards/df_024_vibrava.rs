//! Vibrava δ - Dragon Frontiers #24
use crate::game::{CardInstance, GameState, PlayerState, pokemon_in_play};
use crate::model::CardInstanceId;
use crate::registry::CardMetaSpec;
use crate::text::str_eq;
use vstd::prelude::*;

verus! {

pub const SET: &'static str = "DF";

pub const NUMBER: u32 = 24;

pub const NAME: &'static str = "Vibrava δ";

/// The damage of Quick Blow.
pub const QUICK_BLOW_BASE: i32 = 30;

/// The extra damage of Quick Blow when the coin comes up heads.
pub const QUICK_BLOW_BONUS: i32 = 20;

/// The attached card is, by its metadata, a Psychic energy card.
pub open spec fn is_psychic_energy(meta: Map<Seq<char>, CardMetaSpec>, card: CardInstance) -> bool {
    meta.contains_key(card.def_id@) && meta[card.def_id@].is_energy && meta[card.def_id@].energy_kind
        == Some("Psychic"@)
}

/// Psychic Wing is on: the Pokémon is in play with a Psychic energy card attached.
pub open spec fn psychic_wing_spec(players: Seq<PlayerState>, meta: Map<Seq<char>, CardMetaSpec>, pokemon_id: CardInstanceId) -> bool {
    match pokemon_in_play(players, pokemon_id) {
        Some(slot) => exists|i: int|
            0 <= i < slot.attached_energy@.len() && #[trigger] is_psychic_energy(meta, slot.attached_energy@[i]),
        None => false,
    }
}

pub fn psychic_wing_active(game: &GameState, pokemon_id: CardInstanceId) -> (r: bool)
    ensures
        r == psychic_wing_spec(game.players@, game.card_meta@, pokemon_id),
{
    if let Some(slot) = game.find_pokemon(pokemon_id) {
        let mut i: usize = 0;
        while i < slot.attached_energy.len()
            invariant
                pokemon_in_play(game.players@, pokemon_id) == Some(*slot),
                i <= slot.attached_energy@.len(),
                forall|j: int| 0 <= j < i ==> !is_psychic_energy(game.card_meta@, #[trigger] slot.attached_energy@[j]),
            decreases slot.attached_energy.len() - i,
        {
            let card = &slot.attached_energy[i];
            if let Some(meta) = game.meta_of(card.def_id.as_str()) {
                if meta.is_energy {
                    if let Some(kind) = &meta.energy_kind {
                        if str_eq(kind.as_str(), "Psychic") {
                            assert(is_psychic_energy(game.card_meta@, slot.attached_energy@[i as int]));
                            return true;
                        }
                    }
                }
            }
            i = i + 1;
        }
    }
    false
}

/// With the Poké-Body on and Psychic Wing active, the retreat cost goes down by one (to 0).
pub fn psychic_wing_retreat_reduction(game: &GameState, pokemon_id: CardInstanceId, body_active: bool) -> (r: i32)
    ensures
        r == if body_active && psychic_wing_spec(game.players@, game.card_meta@, pokemon_id) {
            -1int
        } else {
            0int
        },
{
    if body_active && psychic_wing_active(game, pokemon_id) {
        -1
    } else {
        0
    }
}

/// Damage of Quick Blow for a coin flip: the base damage, plus the bonus on heads.
pub fn quick_blow_damage_for(heads: bool) -> (damage: i32)
    ensures
        damage == if heads {
            QUICK_BLOW_BASE + QUICK_BLOW_BONUS
        } else {
            QUICK_BLOW_BASE as int
        },
{
    if heads {
        QUICK_BLOW_BASE + QUICK_BLOW_BONUS
    } else {
        QUICK_BLOW_BASE
    }
}

/// Quick Blow: flips the game's coin for the bonus damage.
pub fn quick_blow_damage(game: &mut GameState, _attacker_id: CardInstanceId) -> (damage: i32)
    ensures
        damage == QUICK_BLOW_BASE || damage == QUICK_BLOW_BASE + QUICK_BLOW_BONUS,
        final(game).players == old(game).players,
        final(game).card_meta@ == old(game).card_meta@,
        final(game).pending_prompt == old(game).pending_prompt,
{
    let heads = game.flip_coin();
    quick_blow_damage_for(heads)
}

} // verus!
