//! Darkness Energy (Special) - Holon Phantoms #94
use crate::game::{CardInstance, GameState, PlayerState};
use crate::model::{CardInstanceId, Type};
use crate::registry::CardMetaSpec;
use crate::text::{chars_contain, chars_of, has_infix, str_eq};
use vstd::prelude::*;

verus! {

pub const SET: &'static str = "HP";

pub const NUMBER: u32 = 94;

pub const NAME: &'static str = "Darkness Energy";

/// The extra damage for each Darkness Energy attached.
pub const DAMAGE_BONUS: i32 = 10;

/// A Pokémon whose name contains "Dark", or with the type "darkness", gets the bonus.
pub open spec fn qualifies_spec(name: Seq<char>, types: Seq<Seq<char>>) -> bool {
    has_infix(name, "Dark"@) || types.contains("darkness"@)
}

/// The characters of some strings.
pub open spec fn strings_view(s: Seq<String>) -> Seq<Seq<char>> {
    s.map_values(|t: String| t@)
}

pub fn qualifies_for_bonus(pokemon_name: &str, pokemon_types: &[String]) -> (r: bool)
    ensures
        r == qualifies_spec(pokemon_name@, strings_view(pokemon_types@)),
{
    if chars_contain(chars_of(pokemon_name).as_slice(), chars_of("Dark").as_slice()) {
        return true;
    }
    let mut i: usize = 0;
    while i < pokemon_types.len()
        invariant
            i <= pokemon_types@.len(),
            forall|j: int| 0 <= j < i ==> pokemon_types@[j]@ != "darkness"@,
        decreases pokemon_types.len() - i,
    {
        if str_eq(pokemon_types[i].as_str(), "darkness") {
            assert(strings_view(pokemon_types@)[i as int] == "darkness"@);
            return true;
        }
        i = i + 1;
    }
    assert(!strings_view(pokemon_types@).contains("darkness"@)) by {
        if strings_view(pokemon_types@).contains("darkness"@) {
            let j = choose|j: int| 0 <= j < strings_view(pokemon_types@).len() && strings_view(pokemon_types@)[j] == "darkness"@;
            assert(pokemon_types@[j]@ == "darkness"@);
        }
    }
    false
}

/// The lowercase name under which a type is listed among a Pokémon's types.
pub open spec fn type_key_label(t: Type) -> Seq<char> {
    match t {
        Type::Grass => "grass"@,
        Type::Fire => "fire"@,
        Type::Water => "water"@,
        Type::Lightning => "lightning"@,
        Type::Psychic => "psychic"@,
        Type::Fighting => "fighting"@,
        Type::Darkness => "darkness"@,
        Type::Metal => "metal"@,
        Type::Colorless => "colorless"@,
    }
}

pub fn type_key(t: Type) -> (r: String)
    ensures
        r@ == type_key_label(t),
{
    match t {
        Type::Grass => "grass".to_owned(),
        Type::Fire => "fire".to_owned(),
        Type::Water => "water".to_owned(),
        Type::Lightning => "lightning".to_owned(),
        Type::Psychic => "psychic".to_owned(),
        Type::Fighting => "fighting".to_owned(),
        Type::Darkness => "darkness".to_owned(),
        Type::Metal => "metal".to_owned(),
        Type::Colorless => "colorless".to_owned(),
    }
}

fn type_keys(types: &[Type]) -> (r: Vec<String>)
    ensures
        strings_view(r@) == types@.map_values(|t: Type| type_key_label(t)),
{
    let mut out: Vec<String> = Vec::new();
    let mut i: usize = 0;
    while i < types.len()
        invariant
            i <= types@.len(),
            strings_view(out@) == types@.map_values(|t: Type| type_key_label(t)).take(i as int),
        decreases types.len() - i,
    {
        let k = type_key(types[i]);
        let ghost prev = out@;
        out.push(k);
        proof {
            assert(strings_view(out@) =~= strings_view(prev).push(k@));
            assert(types@.map_values(|t: Type| type_key_label(t)).take(i + 1) =~= types@.map_values(
                |t: Type| type_key_label(t),
            ).take(i as int).push(type_key_label(types@[i as int])));
        }
        i = i + 1;
    }
    assert(types@.map_values(|t: Type| type_key_label(t)).take(types@.len() as int) =~= types@.map_values(
        |t: Type| type_key_label(t),
    ));
    out
}

/// The attached card is, by its metadata, a special energy named for Darkness.
pub open spec fn is_special_darkness(meta: Map<Seq<char>, CardMetaSpec>, card: CardInstance) -> bool {
    meta.contains_key(card.def_id@) && meta[card.def_id@].energy_kind == Some("Special"@) && has_infix(
        meta[card.def_id@].name,
        "Darkness"@,
    )
}

/// How many of the attached cards are special Darkness energy.
pub open spec fn darkness_count(meta: Map<Seq<char>, CardMetaSpec>, cards: Seq<CardInstance>) -> int
    decreases cards.len(),
{
    if cards.len() == 0 {
        0
    } else {
        darkness_count(meta, cards.drop_last()) + if is_special_darkness(meta, cards.last()) {
            1int
        } else {
            0int
        }
    }
}

/// Side `idx`'s Active Pokémon is the attacker, its metadata is known, and it qualifies.
pub open spec fn qualifying_active(
    players: Seq<PlayerState>,
    meta: Map<Seq<char>, CardMetaSpec>,
    idx: int,
    attacker_id: CardInstanceId,
) -> bool {
    players[idx].active matches Some(a) && a.card.id == attacker_id && meta.contains_key(a.card.def_id@)
        && qualifies_spec(meta[a.card.def_id@].name, meta[a.card.def_id@].types.map_values(|t: Type| type_key_label(t)))
}

/// The bonus: 10 for each Darkness Energy on the attacker, when it is an
/// Active Pokémon that qualifies (P1's side looked at first); 0 otherwise.
pub open spec fn darkness_bonus_spec(players: Seq<PlayerState>, meta: Map<Seq<char>, CardMetaSpec>, attacker_id: CardInstanceId) -> int {
    if qualifying_active(players, meta, 0, attacker_id) {
        darkness_count(meta, players[0].active->0.attached_energy@) * DAMAGE_BONUS
    } else if qualifying_active(players, meta, 1, attacker_id) {
        darkness_count(meta, players[1].active->0.attached_energy@) * DAMAGE_BONUS
    } else {
        0
    }
}

/// Each Active Pokémon has few enough energy cards that the bonus fits in 32 bits.
pub open spec fn energy_counts_small(players: Seq<PlayerState>) -> bool {
    forall|idx: int|
        0 <= idx < 2 ==> (#[trigger] players[idx].active matches Some(a) ==> a.attached_energy@.len() * DAMAGE_BONUS
            <= i32::MAX)
}

fn count_darkness(game: &GameState, cards: &[CardInstance]) -> (r: usize)
    ensures
        r == darkness_count(game.card_meta@, cards@),
        r <= cards@.len(),
{
    let mut count: usize = 0;
    let mut i: usize = 0;
    while i < cards.len()
        invariant
            i <= cards@.len(),
            count == darkness_count(game.card_meta@, cards@.take(i as int)),
            count <= i,
        decreases cards.len() - i,
    {
        let mut hit = false;
        if let Some(meta) = game.meta_of(cards[i].def_id.as_str()) {
            if let Some(kind) = &meta.energy_kind {
                if str_eq(kind.as_str(), "Special") && chars_contain(
                    chars_of(meta.name.as_str()).as_slice(),
                    chars_of("Darkness").as_slice(),
                ) {
                    hit = true;
                }
            }
        }
        assert(cards@.take(i + 1).drop_last() =~= cards@.take(i as int));
        assert(cards@.take(i + 1).last() == cards@[i as int]);
        assert(hit == is_special_darkness(game.card_meta@, cards@[i as int]));
        if hit {
            count = count + 1;
        }
        i = i + 1;
    }
    assert(cards@.take(cards@.len() as int) =~= cards@);
    count
}

/// The extra damage the attacker does for its Darkness Energy.
pub fn darkness_energy_bonus(game: &GameState, attacker_id: CardInstanceId) -> (r: i32)
    requires
        energy_counts_small(game.players@),
    ensures
        r == darkness_bonus_spec(game.players@, game.card_meta@, attacker_id),
{
    let mut player_idx: usize = 0;
    while player_idx < 2
        invariant
            player_idx <= 2,
            energy_counts_small(game.players@),
            forall|j: int| 0 <= j < player_idx ==> !qualifying_active(game.players@, game.card_meta@, j, attacker_id),
        decreases 2 - player_idx,
    {
        if let Some(active) = &game.players[player_idx].active {
            if active.card.id == attacker_id {
                if let Some(meta) = game.meta_of(active.card.def_id.as_str()) {
                    let types = type_keys(meta.types.as_slice());
                    if qualifies_for_bonus(meta.name.as_str(), types.as_slice()) {
                        let darkness = count_darkness(game, active.attached_energy.as_slice());
                        assert(game.players@[player_idx as int].active matches Some(a) ==> a.attached_energy@.len()
                            * DAMAGE_BONUS <= i32::MAX);
                        return (darkness as i32) * DAMAGE_BONUS;
                    }
                }
            }
        }
        player_idx = player_idx + 1;
    }
    0
}

} // verus!
