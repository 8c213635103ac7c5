//! The part of a game's state that card effects read and change: the cards
//! in play on each side, the card metadata, the prompt waiting for an answer
//! and the coin the game flips.
use crate::model::{CardInstanceId, PlayerId, Prompt};
use crate::registry::{CardMeta, CardMetaMap};
use crate::rng::{gen_ratio, seeded_rng};
use rand_chacha::ChaCha8Rng;
use vstd::prelude::*;

verus! {

/// A physical card: its identifier, its definition and its owner.
#[derive(Clone, Debug, PartialEq, Eq)]
pub struct CardInstance {
    pub id: CardInstanceId,
    pub def_id: String,
    pub owner: PlayerId,
}

/// A Pokémon in play, with what is attached to it.
#[derive(Clone, Debug, PartialEq, Eq)]
pub struct PokemonSlot {
    pub card: CardInstance,
    pub attached_energy: Vec<CardInstance>,
    pub attached_tool: Option<CardInstance>,
    pub hp: u16,
    pub damage_counters: u16,
}

/// One side of the table.
#[derive(Clone, Debug, PartialEq, Eq)]
pub struct PlayerState {
    pub active: Option<PokemonSlot>,
    pub bench: Vec<PokemonSlot>,
}

/// A prompt and the player who must answer it.
#[derive(Clone, Debug, PartialEq, Eq)]
pub struct PendingPrompt {
    pub for_player: PlayerId,
    pub prompt: Prompt,
}

/// The game: both sides (P1's first), the metadata of the cards, the prompt
/// waiting for an answer, and the coin.
pub struct GameState {
    pub players: [PlayerState; 2],
    pub card_meta: CardMetaMap,
    pub pending_prompt: Option<PendingPrompt>,
    pub rng: ChaCha8Rng,
}

/// The Pokémon in play, side by side: each side's Active Pokémon, then its bench.
pub open spec fn in_play(players: Seq<PlayerState>) -> Seq<PokemonSlot>
    decreases players.len(),
{
    if players.len() == 0 {
        Seq::empty()
    } else {
        in_play(players.drop_last()) + side_in_play(players.last())
    }
}

/// One side's Pokémon in play: the Active Pokémon, then the bench.
pub open spec fn side_in_play(p: PlayerState) -> Seq<PokemonSlot> {
    match p.active {
        Some(a) => seq![a] + p.bench@,
        None => p.bench@,
    }
}

/// `i` is the first Pokémon in play with identifier `id`.
pub open spec fn is_first_in_play(slots: Seq<PokemonSlot>, id: CardInstanceId, i: int) -> bool {
    &&& 0 <= i < slots.len()
    &&& slots[i].card.id == id
    &&& forall|k: int| 0 <= k < i ==> slots[k].card.id != id
}

/// The Pokémon in play with identifier `id`, the first such.
pub open spec fn pokemon_in_play(players: Seq<PlayerState>, id: CardInstanceId) -> Option<PokemonSlot> {
    let slots = in_play(players);
    if exists|i: int| is_first_in_play(slots, id, i) {
        Some(slots[choose|i: int| is_first_in_play(slots, id, i)])
    } else {
        None
    }
}

/// The side whose Active Pokémon is `card_id`, P1's side first.
pub open spec fn owner_of_active(players: Seq<PlayerState>, card_id: CardInstanceId) -> Option<(PlayerId, usize)> {
    if players[0].active matches Some(a) && a.card.id == card_id {
        Some((PlayerId::P1, 0usize))
    } else if players[1].active matches Some(a) && a.card.id == card_id {
        Some((PlayerId::P2, 1usize))
    } else {
        None
    }
}

/// The side whose Active Pokémon is `card_id`, with its position.
pub fn find_owner(game: &GameState, card_id: CardInstanceId) -> (r: Option<(PlayerId, usize)>)
    ensures
        r == owner_of_active(game.players@, card_id),
{
    if let Some(a) = &game.players[0].active {
        if a.card.id == card_id {
            return Some((PlayerId::P1, 0));
        }
    }
    if let Some(a) = &game.players[1].active {
        if a.card.id == card_id {
            return Some((PlayerId::P2, 1));
        }
    }
    None
}

fn slot_index(slots: &[PokemonSlot], id: CardInstanceId) -> (r: Option<usize>)
    ensures
        r matches Some(i) ==> i < slots@.len() && slots@[i as int].card.id == id && forall|k: int|
            0 <= k < i ==> slots@[k].card.id != id,
        r is None ==> forall|k: int| 0 <= k < slots@.len() ==> slots@[k].card.id != id,
{
    let mut i: usize = 0;
    while i < slots.len()
        invariant
            i <= slots@.len(),
            forall|k: int| 0 <= k < i ==> slots@[k].card.id != id,
        decreases slots.len() - i,
    {
        if slots[i].card.id == id {
            return Some(i);
        }
        i = i + 1;
    }
    None
}

/// `id` is not on this side.
proof fn lemma_side_absent(p: PlayerState, id: CardInstanceId)
    requires
        !(p.active matches Some(a) && a.card.id == id),
        forall|k: int| 0 <= k < p.bench@.len() ==> p.bench@[k].card.id != id,
    ensures
        forall|k: int| 0 <= k < side_in_play(p).len() ==> side_in_play(p)[k].card.id != id,
{
    assert forall|k: int| 0 <= k < side_in_play(p).len() implies side_in_play(p)[k].card.id != id by {
        match p.active {
            Some(a) => {
                if k > 0 {
                    assert(side_in_play(p)[k] == p.bench@[k - 1]);
                }
            },
            None => {},
        }
    }
}

impl GameState {
    /// A game with these sides and metadata, no prompt pending, and a coin seeded with `seed`.
    pub fn new(players: [PlayerState; 2], card_meta: CardMetaMap, seed: u64) -> (r: GameState)
        ensures
            r.players == players,
            r.card_meta@ == card_meta@,
            r.pending_prompt is None,
    {
        GameState { players, card_meta, pending_prompt: None, rng: seeded_rng(seed) }
    }

    /// The Pokémon in play with identifier `id`: P1's Active Pokémon and bench first, then P2's.
    pub fn find_pokemon(&self, id: CardInstanceId) -> (r: Option<&PokemonSlot>)
        ensures
            r matches Some(s) ==> pokemon_in_play(self.players@, id) == Some(*s),
            r is None ==> pokemon_in_play(self.players@, id) is None,
    {
        let ghost slots = in_play(self.players@);
        let ghost s0 = side_in_play(self.players@[0]);
        let ghost s1 = side_in_play(self.players@[1]);
        proof {
            let ps = self.players@;
            assert(ps.len() == 2);
            assert(ps.drop_last().drop_last() =~= Seq::<PlayerState>::empty());
            assert(ps.drop_last().last() == ps[0]);
            assert(ps.last() == ps[1]);
            assert(in_play(ps.drop_last().drop_last()) =~= Seq::<PokemonSlot>::empty());
            assert(in_play(ps.drop_last()) =~= s0);
            assert(slots =~= s0 + s1);
        }
        let mut side: usize = 0;
        while side < 2
            invariant
                side <= 2,
                slots == in_play(self.players@),
                slots == s0 + s1,
                s0 == side_in_play(self.players@[0]),
                s1 == side_in_play(self.players@[1]),
                side >= 1 ==> forall|k: int| 0 <= k < s0.len() ==> s0[k].card.id != id,
                side >= 2 ==> forall|k: int| 0 <= k < s1.len() ==> s1[k].card.id != id,
            decreases 2 - side,
        {
            let p = &self.players[side];
            let ghost sp = side_in_play(*p);
            let ghost offset: int = if side == 0 {
                0
            } else {
                s0.len() as int
            };
            assert(forall|k: int| 0 <= k < offset ==> slots[k].card.id != id);
            assert(forall|k: int| 0 <= k < sp.len() ==> slots[offset + k] == sp[k]);
            if let Some(a) = &p.active {
                if a.card.id == id {
                    proof {
                        assert(sp[0] == *a);
                        assert(is_first_in_play(slots, id, offset));
                        assert forall|j: int| is_first_in_play(slots, id, j) implies j == offset by {
                            if j < offset {
                            } else if j > offset {
                                assert(slots[offset].card.id == id);
                            }
                        }
                    }
                    return Some(a);
                }
            }
            match slot_index(p.bench.as_slice(), id) {
                Some(i) => {
                    let ghost at: int = if p.active is Some {
                        offset + 1 + i
                    } else {
                        offset + i
                    };
                    proof {
                        let front: int = if p.active is Some {
                            1
                        } else {
                            0
                        };
                        assert(sp[front + i] == p.bench@[i as int]);
                        assert forall|k: int| 0 <= k < at implies slots[k].card.id != id by {
                            if k >= offset {
                                if k - offset < front {
                                    assert(sp[0] == p.active->0);
                                } else {
                                    assert(sp[k - offset] == p.bench@[k - offset - front]);
                                }
                            }
                        }
                        assert(is_first_in_play(slots, id, at));
                        assert forall|j: int| is_first_in_play(slots, id, j) implies j == at by {
                            if j < at {
                            } else if j > at {
                                assert(slots[at].card.id == id);
                            }
                        }
                    }
                    return Some(&p.bench[i]);
                },
                None => {
                    proof {
                        lemma_side_absent(*p, id);
                    }
                },
            }
            side = side + 1;
        }
        proof {
            assert forall|j: int| !is_first_in_play(slots, id, j) by {
                if 0 <= j < slots.len() {
                    if j < s0.len() {
                        assert(slots[j] == s0[j]);
                    } else {
                        assert(slots[j] == s1[j - s0.len()]);
                    }
                }
            }
        }
        None
    }

    /// The metadata of the card definition `def_id`, if known.
    pub fn meta_of(&self, def_id: &str) -> (r: Option<&CardMeta>)
        ensures
            r matches Some(m) ==> self.card_meta@.contains_key(def_id@) && self.card_meta@[def_id@] == m@,
            r is None ==> !self.card_meta@.contains_key(def_id@),
    {
        self.card_meta.get(def_id)
    }

    /// Flips the game's coin; `true` is heads.
    pub fn flip_coin(&mut self) -> (heads: bool)
        ensures
            final(self).players == old(self).players,
            final(self).card_meta@ == old(self).card_meta@,
            final(self).pending_prompt == old(self).pending_prompt,
    {
        gen_ratio(&mut self.rng, 1, 2)
    }

    /// Leaves `prompt` waiting for `player`'s answer.
    pub fn set_pending_prompt(&mut self, prompt: Prompt, player: PlayerId)
        ensures
            final(self).pending_prompt == Some(PendingPrompt { for_player: player, prompt }),
            final(self).players == old(self).players,
            final(self).card_meta@ == old(self).card_meta@,
    {
        self.pending_prompt = Some(PendingPrompt { for_player: player, prompt });
    }
}

/// `pending` asks `player` to flip a coin for the effect described.
pub open spec fn coin_flip_asked(pending: Option<PendingPrompt>, player: PlayerId, effect: Seq<char>) -> bool {
    pending matches Some(pp) && pp.for_player == player && (pp.prompt matches Prompt::CoinFlipForEffect {
        player: asked,
        effect_description: d,
    } && asked == player && d@ == effect)
}

/// Asks the player whose Active Pokémon is `attacker_id` to flip a coin for
/// the effect described; `false`, and nothing asked, when `attacker_id` is
/// neither side's Active Pokémon.
pub fn ask_coin_flip(game: &mut GameState, attacker_id: CardInstanceId, effect: &str) -> (r: bool)
    ensures
        r == owner_of_active(old(game).players@, attacker_id) is Some,
        final(game).players == old(game).players,
        final(game).card_meta@ == old(game).card_meta@,
        match owner_of_active(old(game).players@, attacker_id) {
            Some((player, _)) => coin_flip_asked(final(game).pending_prompt, player, effect@),
            None => final(game).pending_prompt == old(game).pending_prompt,
        },
{
    let (player, _player_idx) = match find_owner(game, attacker_id) {
        Some((p, idx)) => (p, idx),
        None => {
            return false;
        },
    };
    let prompt = Prompt::CoinFlipForEffect { player, effect_description: effect.to_owned() };
    game.set_pending_prompt(prompt, player);
    true
}

} // verus!
