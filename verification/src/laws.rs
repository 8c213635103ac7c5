//! Properties the library keeps across its functions: what every policy's
//! plan for a turn looks like, what random and weighted picks can return,
//! how an answer's card identifier is read back, and what the registry and
//! the card effects give.
use crate::ai_common::{clamp_len, is_random_pick, keep_allowed};
use crate::candidate_ai::{
    candidate_free_ok, candidate_prompt_ok, gap_weights, is_desc_order, scores_of, weighted_pick_ok, weighted_pool,
};
use crate::cards::hp_094_darkness_energy::{
    DAMAGE_BONUS, darkness_bonus_spec, darkness_count, qualifying_active, type_key_label,
};
use crate::game::{CardInstance, PlayerState};
use crate::model::{Action, AttackSpec, CardInstanceId, GameView, Phase, PlayerId, Prompt, Stage, Type};
use crate::observation::{
    card_id_field, decimal_chars, decimal_value, extract_card_id_spec, first_occurrence, is_digit, is_white_space,
    leading_count, lemma_decimal_chars, offer_if, offers_spec, Offer,
};
use crate::random_ai::{free_actions_ok, prompt_response_ok};
use crate::random_ai_v2::{free_actions_v2_ok, prompt_response_v2_ok};
use crate::random_ai_v3::{free_actions_v3_ok, prompt_response_v3_ok, turn_steps_ok};
use crate::registry::{CardMetaSpec, card_meta_spec, deck_card_meta, known_card, lowercase};
use crate::text::{has_infix, has_prefix, has_suffix, occurs_at};
use vstd::prelude::*;

verus! {

/// It is our turn and no prompt is open.
pub open spec fn free_to_act(view: GameView) -> bool {
    view.current_player == view.player_id && view.pending_prompt is None
}

/// A plan that ends the turn: not empty, and its last action is the end of the turn.
pub open spec fn ends_turn(r: Seq<Action>) -> bool {
    r.len() > 0 && r.last() == Action::EndTurn
}

/// Every policy plans nothing outside its own turn or while a prompt is open,
/// and on its own turn plans a short list of actions that ends the turn.
pub proof fn lemma_plans_end_the_turn(view: GameView, r1: Seq<Action>, r2: Seq<Action>, r3: Seq<Action>, r4: Seq<Action>)
    requires
        free_actions_ok(view, r1),
        free_actions_v2_ok(view, r2),
        free_actions_v3_ok(view, r3),
        candidate_free_ok(view, r4),
    ensures
        free_to_act(view) ==> ends_turn(r1) && ends_turn(r2) && ends_turn(r3) && ends_turn(r4),
        free_to_act(view) ==> r1.len() <= 4 && r2.len() <= 4 && r3.len() <= 6 && r4.len() <= 4,
        !free_to_act(view) ==> r1.len() == 0 && r2.len() == 0 && r3.len() == 0 && r4.len() == 0,
{
    if free_to_act(view) {
        let h = view.action_hints;
        let nt: int = if h.playable_trainer_ids@.len() > 0 {
            1
        } else {
            0
        };
        match crate::random_ai_v3::evolution_choice(view) {
            Some(_) => lemma_turn_steps_end(view, r3, 1 + nt, false),
            None => if nt == 1 {
                lemma_turn_steps_end(view, r3, 1, false);
            } else {
                lemma_turn_steps_end(view, r3, 0, h.can_declare_attack && h.usable_attacks@.len() > 0);
            },
        }
    }
}

proof fn lemma_turn_steps_end(view: GameView, r: Seq<Action>, start: int, basic_first: bool)
    requires
        turn_steps_ok(view, r, start, basic_first),
        0 <= start <= 2,
    ensures
        ends_turn(r),
        r.len() <= start + 4,
{
}

/// Asked to promote a new Active Pokémon for the other player, every policy
/// answers only by ending the turn.
pub proof fn lemma_foreign_replacement_ends_turn(
    view: GameView,
    player: PlayerId,
    options: Vec<CardInstanceId>,
    r1: Seq<Action>,
    r2: Seq<Action>,
    r3: Seq<Action>,
    r4: Seq<Action>,
)
    requires
        player != view.player_id,
        prompt_response_ok(view, Prompt::ChooseNewActive { player, options }, r1),
        prompt_response_v2_ok(view, Prompt::ChooseNewActive { player, options }, r2),
        prompt_response_v3_ok(view, Prompt::ChooseNewActive { player, options }, r3),
        candidate_prompt_ok(view, Prompt::ChooseNewActive { player, options }, r4),
    ensures
        r1 == seq![Action::EndTurn],
        r2 == seq![Action::EndTurn],
        r3 == seq![Action::EndTurn],
        r4 == seq![Action::EndTurn],
{
}

/// A random pick of `k` options holds `k` of them (all, when there are
/// fewer), each an option, none more often than among the options.
pub proof fn lemma_random_pick_from_options(picked: Seq<CardInstanceId>, options: Seq<CardInstanceId>, k: int)
    requires
        is_random_pick(picked, options, k),
        k >= 0,
    ensures
        picked.len() == clamp_len(k, options.len() as int),
        forall|i: int| 0 <= i < picked.len() ==> options.contains(#[trigger] picked[i]),
        picked.to_multiset().subset_of(options.to_multiset()),
{
    let perm = choose|perm: Seq<CardInstanceId>|
        #![trigger perm.to_multiset()]
        perm.to_multiset() == options.to_multiset() && perm.len() == options.len() && picked == perm.take(
            clamp_len(k, perm.len() as int),
        );
    let n = clamp_len(k, perm.len() as int);
    assert(perm =~= perm.take(n) + perm.skip(n));
    vstd::seq_lib::lemma_multiset_commutative(perm.take(n), perm.skip(n));
    assert forall|i: int| 0 <= i < picked.len() implies options.contains(#[trigger] picked[i]) by {
        assert(picked[i] == perm[i]);
        perm.to_multiset_ensures();
        options.to_multiset_ensures();
        assert(perm.to_multiset().count(perm[i]) > 0);
    }
}

/// The pool of a weighted pick holds only the cards it was built from.
pub proof fn lemma_weighted_pool_members(ids: Seq<(CardInstanceId, i64)>, x: CardInstanceId)
    requires
        weighted_pool(ids).contains(x),
    ensures
        exists|i: int| 0 <= i < ids.len() && #[trigger] ids[i].0 == x,
    decreases ids.len(),
{
    let rest = ids.drop_last();
    let (id, w) = ids.last();
    let tail = Seq::new(
        if w > 0 {
            w as nat
        } else {
            0nat
        },
        |k: int| id,
    );
    let j = choose|j: int| 0 <= j < weighted_pool(ids).len() && weighted_pool(ids)[j] == x;
    if j < weighted_pool(rest).len() {
        assert(weighted_pool(rest)[j] == x);
        lemma_weighted_pool_members(rest, x);
        let i = choose|i: int| 0 <= i < rest.len() && #[trigger] rest[i].0 == x;
        assert(ids[i].0 == x);
    } else {
        assert(tail[j - weighted_pool(rest).len()] == x);
        assert(ids[ids.len() - 1].0 == x);
    }
}

/// A weighted pick among scored cards always returns one of them.
pub proof fn lemma_weighted_pick_is_scored(scored: Seq<(CardInstanceId, i64)>, cap: int, r: Option<CardInstanceId>)
    requires
        weighted_pick_ok(scored, cap, r),
    ensures
        r matches Some(x) && exists|i: int| 0 <= i < scored.len() && #[trigger] scored[i].0 == x,
{
    let order = choose|order: Seq<usize>|
        #[trigger] is_desc_order(scores_of(scored), order, scored.len() as int) && (forall|t: int|
            0 <= t < order.len() ==> order[t] < scored.len()) && (r matches Some(x) && weighted_pool(
            gap_weights(scored, order, cap),
        ).contains(x));
    let x = r->0;
    let gw = gap_weights(scored, order, cap);
    lemma_weighted_pool_members(gw, x);
    let t = choose|t: int| 0 <= t < gw.len() && #[trigger] gw[t].0 == x;
    assert(scored[order[t] as int].0 == x);
}

/// An order by descending score never lists a position twice, and a full
/// order lists every position.
pub proof fn lemma_desc_order_distinct(scores: Seq<i128>, idx: Seq<usize>, take: int)
    requires
        is_desc_order(scores, idx, take),
    ensures
        forall|t: int, u: int| 0 <= t < u < idx.len() ==> idx[t] != idx[u],
        idx.len() < take ==> forall|q: int| 0 <= q < scores.len() ==> #[trigger] idx.contains(q as usize),
{
    assert forall|t: int, u: int| 0 <= t < u < idx.len() implies idx[t] != idx[u] by {
        assert(crate::candidate_ai::is_first_max_unchosen(scores, idx.take(u), idx[u]));
        assert(idx.take(u)[t] == idx[t]);
        if idx[t] == idx[u] {
            assert(idx.take(u).contains(idx[u]));
        }
    }
}

/// The answer as the agent writes it: `{"card_id": ` then the digits, then `}`.
pub open spec fn card_id_answer(digits: Seq<char>) -> Seq<char> {
    "{\"card_id\": "@ + digits + "}"@
}

/// Reading a card identifier back from an answer that names it gives the
/// number written, for every string of decimal digits whose value fits in 64 bits.
pub proof fn lemma_extract_card_id_roundtrip(digits: Seq<char>)
    requires
        digits.len() > 0,
        forall|i: int| 0 <= i < digits.len() ==> is_digit(#[trigger] digits[i]),
        decimal_value(digits) <= u64::MAX,
    ensures
        extract_card_id_spec(card_id_answer(digits)) == Some(decimal_value(digits) as u64),
{
    reveal_strlit("{\"card_id\": ");
    reveal_strlit("\"card_id\"");
    reveal_strlit("}");
    let text = card_id_answer(digits);
    let key = "\"card_id\""@;
    assert(key.len() == 9);
    assert(text.len() == 12 + digits.len() + 1);
    assert(occurs_at(text, key, 1)) by {
        assert(text.subrange(1, 10) =~= key);
    }
    assert(!occurs_at(text, key, 0)) by {
        assert(text[0] == '{');
        assert(text.subrange(0, 9)[0] != key[0]);
    }
    assert(first_occurrence(text, key) == 1) by {
        let f = first_occurrence(text, key);
        assert(occurs_at(text, key, f) && forall|j: int| 0 <= j < f ==> !occurs_at(text, key, j));
        if f > 1 {
        } else if f < 1 {
        }
    }
    let after = text.skip(10);
    assert(after[0] == ':');
    let colon = seq![':'];
    assert(occurs_at(after, colon, 0)) by {
        assert(after.subrange(0, 1) =~= colon);
    }
    assert(first_occurrence(after, colon) == 0) by {
        let f = first_occurrence(after, colon);
        assert(occurs_at(after, colon, f) && forall|j: int| 0 <= j < f ==> !occurs_at(after, colon, j));
    }
    let rest = after.skip(1);
    assert(rest[0] == ' ');
    let ws = |c: char| is_white_space(c);
    assert(leading_count(rest, ws) == 1) by {
        assert((' ' as u32) == 0x20);
        assert(is_white_space(' '));
        assert(ws(rest[0]));
        assert(rest.skip(1)[0] == digits[0]);
        assert(is_digit(digits[0]));
        assert(('0' as u32) == 0x30);
        assert(('9' as u32) == 0x39);
        assert(!is_white_space(digits[0]));
        assert(!ws(rest.skip(1)[0]));
        assert(leading_count(rest.skip(1), ws) == 0);
    }
    let field = rest.skip(1);
    assert(field =~= digits + "}"@);
    assert(card_id_field(text) == Some(field));
    assert(field[0] != '"');
    let dg = |c: char| is_digit(c);
    lemma_leading_digits(digits, "}"@);
    assert(field.take(leading_count(field, dg)) =~= digits);
}

/// The answer with the number quoted: `{"card_id": "` then the digits, then `"}`.
pub open spec fn quoted_card_id_answer(digits: Seq<char>) -> Seq<char> {
    "{\"card_id\": \""@ + digits + "\"}"@
}

/// Reading a card identifier back from an answer that names it in quotes
/// gives the number written, for every string of decimal digits whose value
/// fits in 64 bits.
pub proof fn lemma_extract_quoted_card_id_roundtrip(digits: Seq<char>)
    requires
        digits.len() > 0,
        forall|i: int| 0 <= i < digits.len() ==> is_digit(#[trigger] digits[i]),
        decimal_value(digits) <= u64::MAX,
    ensures
        extract_card_id_spec(quoted_card_id_answer(digits)) == Some(decimal_value(digits) as u64),
{
    reveal_strlit("{\"card_id\": \"");
    reveal_strlit("\"card_id\"");
    reveal_strlit("\"}");
    let text = quoted_card_id_answer(digits);
    let key = "\"card_id\""@;
    assert(key.len() == 9);
    assert(text.len() == 13 + digits.len() + 2);
    assert(occurs_at(text, key, 1)) by {
        assert(text.subrange(1, 10) =~= key);
    }
    assert(!occurs_at(text, key, 0)) by {
        assert(text[0] == '{');
        assert(text.subrange(0, 9)[0] != key[0]);
    }
    assert(first_occurrence(text, key) == 1) by {
        let f = first_occurrence(text, key);
        assert(occurs_at(text, key, f) && forall|j: int| 0 <= j < f ==> !occurs_at(text, key, j));
        if f > 1 {
        } else if f < 1 {
        }
    }
    let after = text.skip(10);
    assert(after[0] == ':');
    let colon = seq![':'];
    assert(occurs_at(after, colon, 0)) by {
        assert(after.subrange(0, 1) =~= colon);
    }
    assert(first_occurrence(after, colon) == 0) by {
        let f = first_occurrence(after, colon);
        assert(occurs_at(after, colon, f) && forall|j: int| 0 <= j < f ==> !occurs_at(after, colon, j));
    }
    let rest = after.skip(1);
    assert(rest[0] == ' ');
    let ws = |c: char| is_white_space(c);
    assert(leading_count(rest, ws) == 1) by {
        assert((' ' as u32) == 0x20);
        assert(is_white_space(' '));
        assert(ws(rest[0]));
        assert(rest.skip(1)[0] == '"');
        assert(('"' as u32) == 0x22);
        assert(!is_white_space('"'));
        assert(!ws(rest.skip(1)[0]));
        assert(leading_count(rest.skip(1), ws) == 0);
    }
    let field = rest.skip(1);
    assert(field =~= seq!['"'] + digits + "\"}"@);
    assert(card_id_field(text) == Some(field));
    assert(field[0] == '"');
    assert(field.skip(1) =~= digits + "\"}"@);
    let dg = |c: char| is_digit(c);
    assert(('"' as nat) == 34 && ('0' as nat) == 48);
    assert(!is_digit("\"}"@[0]));
    lemma_leading_digits(digits, "\"}"@);
    assert(field.skip(1).take(leading_count(field.skip(1), dg)) =~= digits);
}

/// Writing a card identifier `n` in decimal in an answer, quoted or not, and
/// reading it back gives `n`.
pub proof fn lemma_card_id_written_and_read(n: u64)
    ensures
        extract_card_id_spec(card_id_answer(decimal_chars(n as nat))) == Some(n),
        extract_card_id_spec(quoted_card_id_answer(decimal_chars(n as nat))) == Some(n),
{
    lemma_decimal_chars(n as nat);
    lemma_extract_card_id_roundtrip(decimal_chars(n as nat));
    lemma_extract_quoted_card_id_roundtrip(decimal_chars(n as nat));
}

/// The digits of `digits + rest` stop where `rest` begins, when it begins with no digit.
proof fn lemma_leading_digits(digits: Seq<char>, rest: Seq<char>)
    requires
        forall|i: int| 0 <= i < digits.len() ==> is_digit(#[trigger] digits[i]),
        rest.len() > 0,
        !is_digit(rest[0]),
    ensures
        leading_count(digits + rest, |c: char| is_digit(c)) == digits.len(),
    decreases digits.len(),
{
    let s = digits + rest;
    if digits.len() > 0 {
        assert(s.skip(1) =~= digits.skip(1) + rest);
        assert forall|i: int| 0 <= i < digits.skip(1).len() implies is_digit(#[trigger] digits.skip(1)[i]) by {
            assert(digits.skip(1)[i] == digits[i + 1]);
        }
        lemma_leading_digits(digits.skip(1), rest);
        assert(s[0] == digits[0]);
    } else {
        assert(s =~= rest);
    }
}

/// An identifier whose lowercase form names a basic energy, in either scheme,
/// gets the metadata of a basic energy card providing one type, named by the identifier.
pub proof fn lemma_energy_identifiers(def_id: Seq<char>, lower: Seq<char>)
    requires
        has_prefix(lower, "energy-"@) || (has_prefix(lower, "hp-"@) && has_suffix(lower, "-energy"@)),
    ensures
        card_meta_spec(def_id, lower) matches Some(m) && m.is_energy && m.is_basic && !m.is_pokemon && m.provides.len()
            == 1 && m.name == def_id && m.energy_kind == Some("Basic"@),
{
}

/// Cards are matched case-insensitively: two identifiers with the same
/// lowercase form that name no basic energy get the same metadata.
pub proof fn lemma_registry_ignores_case(a: Seq<char>, b: Seq<char>)
    requires
        lowercase(a) == lowercase(b),
        !has_prefix(lowercase(a), "energy-"@),
        !(has_prefix(lowercase(a), "hp-"@) && has_suffix(lowercase(a), "-energy"@)),
    ensures
        card_meta_spec(a, lowercase(a)) == card_meta_spec(b, lowercase(b)),
        card_meta_spec(a, lowercase(a)) == known_card(lowercase(a)),
{
}

/// The count of Darkness Energy cards is never negative.
pub proof fn lemma_darkness_count_nonnegative(meta: Map<Seq<char>, CardMetaSpec>, cards: Seq<CardInstance>)
    ensures
        0 <= darkness_count(meta, cards) <= cards.len(),
    decreases cards.len(),
{
    if cards.len() > 0 {
        lemma_darkness_count_nonnegative(meta, cards.drop_last());
    }
}

/// The Darkness Energy bonus is a whole number of bonuses, never negative.
pub proof fn lemma_darkness_bonus_steps(players: Seq<PlayerState>, meta: Map<Seq<char>, CardMetaSpec>, attacker_id: CardInstanceId)
    requires
        players.len() == 2,
    ensures
        darkness_bonus_spec(players, meta, attacker_id) >= 0,
        darkness_bonus_spec(players, meta, attacker_id) % DAMAGE_BONUS as int == 0,
{
    if let Some(a) = players[0].active {
        lemma_darkness_count_nonnegative(meta, a.attached_energy@);
    }
    if let Some(a) = players[1].active {
        lemma_darkness_count_nonnegative(meta, a.attached_energy@);
    }
    let c: int = if crate::cards::hp_094_darkness_energy::qualifying_active(players, meta, 0, attacker_id) {
        darkness_count(meta, players[0].active->0.attached_energy@)
    } else if crate::cards::hp_094_darkness_energy::qualifying_active(players, meta, 1, attacker_id) {
        darkness_count(meta, players[1].active->0.attached_energy@)
    } else {
        0
    };
    assert(darkness_bonus_spec(players, meta, attacker_id) == c * 10);
    assert(c >= 0);
    assert((c * 10) % 10 == 0 && c * 10 >= 0) by (nonlinear_arith)
        requires
            c >= 0,
    ;
}

/// At setup the first policy benches a small bench: exactly one basic more
/// than the minimum asked for when the prompt allows more than the minimum,
/// the minimum when it does not, and every valid basic when there are no
/// more than the minimum; always among the options that are playable basics.
pub proof fn lemma_small_setup_bench(view: GameView, options: Vec<CardInstanceId>, min: usize, max: usize, r: Seq<Action>)
    requires
        prompt_response_ok(view, Prompt::ChooseBenchBasics { options, min, max }, r),
    ensures
        r.len() == 1,
        r[0] matches Action::ChooseBench { card_ids } && {
            let valid = keep_allowed(options@, view.action_hints.playable_basic_ids@);
            let n = valid.len() as int;
            &&& card_ids@.len() == if min as int >= n {
                n
            } else if max > min {
                min as int + 1
            } else {
                min as int
            }
            &&& card_ids@.len() <= min as int + 1
            &&& forall|i: int| 0 <= i < card_ids@.len() ==> valid.contains(#[trigger] card_ids@[i])
        },
{
    let valid = keep_allowed(options@, view.action_hints.playable_basic_ids@);
    let ids = crate::candidates::picked_by(crate::candidates::Pick::Bench, r[0])->0;
    let k = crate::random_ai::bench_count(min, max, valid.len() as int);
    lemma_random_pick_from_options(ids, valid, k);
}

/// A basic energy named "energy-<type>" in any letter case provides exactly
/// that type; any other "energy-..." identifier provides Colorless.
pub proof fn lemma_named_energy_provides(def_id: Seq<char>)
    requires
        has_prefix(lowercase(def_id), "energy-"@),
    ensures
        card_meta_spec(def_id, lowercase(def_id)) matches Some(m) && m.provides.len() == 1 && {
            let lower = lowercase(def_id);
            let t = m.provides[0];
            &&& lower == "energy-psychic"@ ==> t == Type::Psychic
            &&& lower == "energy-fire"@ ==> t == Type::Fire
            &&& lower == "energy-grass"@ ==> t == Type::Grass
            &&& lower == "energy-water"@ ==> t == Type::Water
            &&& lower == "energy-lightning"@ ==> t == Type::Lightning
            &&& lower == "energy-fighting"@ ==> t == Type::Fighting
            &&& lower == "energy-darkness"@ ==> t == Type::Darkness
            &&& lower == "energy-metal"@ ==> t == Type::Metal
            &&& t == Type::Colorless <==> !(lower == "energy-psychic"@ || lower == "energy-fire"@ || lower
                == "energy-grass"@ || lower == "energy-water"@ || lower == "energy-lightning"@ || lower
                == "energy-fighting"@ || lower == "energy-darkness"@ || lower == "energy-metal"@)
        },
{
    reveal_strlit("energy-");
    reveal_strlit("hp-");
    reveal_strlit("energy-psychic");
    reveal_strlit("energy-fire");
    reveal_strlit("energy-grass");
    reveal_strlit("energy-water");
    reveal_strlit("energy-lightning");
    reveal_strlit("energy-fighting");
    reveal_strlit("energy-darkness");
    reveal_strlit("energy-metal");
    let lower = lowercase(def_id);
    assert("energy-psychic"@[7] == 'p' && "energy-fire"@[7] == 'f' && "energy-grass"@[7] == 'g'
        && "energy-water"@[7] == 'w' && "energy-lightning"@[7] == 'l' && "energy-fighting"@[7] == 'f'
        && "energy-darkness"@[7] == 'd' && "energy-metal"@[7] == 'm');
    assert(lower.take(7)[0] == "energy-"@[0]);
    assert(!has_prefix(lower, "hp-"@)) by {
        if has_prefix(lower, "hp-"@) {
            assert(lower.take(3)[0] == lower[0]);
            assert(lower.take(7)[0] == lower[0]);
        }
    }
}

/// A deck card the registry does not know is recorded as a playable basic
/// Pokémon: Basic stage, 50 HP, Colorless, retreat 1, with the one attack
/// Tackle (20 damage for one Colorless energy), named by its identifier.
pub proof fn lemma_unknown_card_is_basic_pokemon(def_id: Seq<char>)
    requires
        card_meta_spec(def_id, lowercase(def_id)) is None,
    ensures
        ({
            let m = deck_card_meta(def_id);
            &&& m.is_basic && m.is_pokemon && !m.is_energy && !m.is_tool && !m.is_stadium
            &&& m.stage == Stage::Basic
            &&& m.hp == 50
            &&& m.types == seq![Type::Colorless]
            &&& m.name == def_id
            &&& m.retreat_cost == Some(1u8)
            &&& m.attacks == seq![
                AttackSpec {
                    name: "Tackle"@,
                    damage: 20,
                    attack_type: Type::Colorless,
                    total_energy: 1,
                    cost_types: seq![Type::Colorless],
                    effect: None,
                },
            ]
        }),
{
}

/// The agent is offered to play a basic Pokémon exactly in the main phase,
/// with a playable basic and room on the bench (fewer than five there); to
/// attach energy exactly in the main phase with a playable energy when none
/// was attached this turn; to evolve or play a trainer exactly in the main
/// phase with one playable; to attack and to end the turn exactly when the
/// engine allows it. No action is offered twice.
pub proof fn lemma_offer_conditions(view: GameView, energy_attached_this_turn: bool)
    ensures
        ({
            let o = offers_spec(view, energy_attached_this_turn);
            let h = view.action_hints;
            let main = view.phase == Phase::Main;
            &&& o.contains(Offer::PlayBasic) <==> (main && view.my_bench@.len() < 5 && h.playable_basic_ids@.len() > 0)
            &&& o.contains(Offer::AttachEnergy) <==> (main && !energy_attached_this_turn && h.playable_energy_ids@.len()
                > 0)
            &&& o.contains(Offer::Evolve) <==> (main && h.playable_evolution_ids@.len() > 0)
            &&& o.contains(Offer::PlayTrainer) <==> (main && h.playable_trainer_ids@.len() > 0)
            &&& o.contains(Offer::DeclareAttack) <==> h.can_declare_attack
            &&& o.contains(Offer::EndTurn) <==> h.can_end_turn
            &&& o.no_duplicates()
        }),
{
    let h = view.action_hints;
    let main = view.phase == Phase::Main;
    let s0 = Seq::<Offer>::empty();
    let s1 = s0 + offer_if(main && view.my_bench@.len() < 5 && h.playable_basic_ids@.len() > 0, Offer::PlayBasic);
    let s2 = s1 + offer_if(main && !energy_attached_this_turn && h.playable_energy_ids@.len() > 0, Offer::AttachEnergy);
    let s3 = s2 + offer_if(main && h.playable_evolution_ids@.len() > 0, Offer::Evolve);
    let s4 = s3 + offer_if(main && h.playable_trainer_ids@.len() > 0, Offer::PlayTrainer);
    let s5 = s4 + offer_if(h.can_declare_attack, Offer::DeclareAttack);
    let s6 = s5 + offer_if(h.can_end_turn, Offer::EndTurn);
    assert(s0.no_duplicates());
    lemma_offer_if_append(s0, main && view.my_bench@.len() < 5 && h.playable_basic_ids@.len() > 0, Offer::PlayBasic);
    lemma_offer_if_append(s1, main && !energy_attached_this_turn && h.playable_energy_ids@.len() > 0, Offer::AttachEnergy);
    lemma_offer_if_append(s2, main && h.playable_evolution_ids@.len() > 0, Offer::Evolve);
    lemma_offer_if_append(s3, main && h.playable_trainer_ids@.len() > 0, Offer::PlayTrainer);
    lemma_offer_if_append(s4, h.can_declare_attack, Offer::DeclareAttack);
    lemma_offer_if_append(s5, h.can_end_turn, Offer::EndTurn);
    assert(s1 =~= offer_if(main && view.my_bench@.len() < 5 && h.playable_basic_ids@.len() > 0, Offer::PlayBasic));
    assert(offers_spec(view, energy_attached_this_turn) == s6);
}

/// Appending an offer made under a condition: the offer is then there exactly
/// when it was before or the condition holds, and other offers are unchanged.
proof fn lemma_offer_if_append(s: Seq<Offer>, c: bool, x: Offer)
    ensures
        forall|y: Offer| #[trigger] (s + offer_if(c, x)).contains(y) <==> (s.contains(y) || (c && y == x)),
        s.no_duplicates() && !s.contains(x) ==> (s + offer_if(c, x)).no_duplicates(),
{
    let t = s + offer_if(c, x);
    assert forall|y: Offer| #[trigger] t.contains(y) <==> (s.contains(y) || (c && y == x)) by {
        if s.contains(y) {
            let i = choose|i: int| 0 <= i < s.len() && s[i] == y;
            assert(t[i] == y);
        }
        if c && y == x {
            assert(t[s.len() as int] == y);
        }
        if t.contains(y) {
            let i = choose|i: int| 0 <= i < t.len() && t[i] == y;
            if i < s.len() {
                assert(s[i] == y);
            }
        }
    }
    if s.no_duplicates() && !s.contains(x) {
        assert forall|i: int, j: int| 0 <= i < t.len() && 0 <= j < t.len() && i != j implies t[i] != t[j] by {
            if i < s.len() && j < s.len() {
            } else if i < s.len() {
                assert(s[i] == t[i]);
            } else if j < s.len() {
                assert(s[j] == t[j]);
            }
        }
    }
}

/// The Darkness Energy bonus goes to an Active attacker that has the Darkness
/// type or a name containing "Dark": 10 for each attached special energy named
/// for Darkness.
pub proof fn lemma_darkness_bonus_qualified(
    players: Seq<PlayerState>,
    meta: Map<Seq<char>, CardMetaSpec>,
    attacker_id: CardInstanceId,
    idx: int,
)
    requires
        players.len() == 2,
        0 <= idx < 2,
        players[idx].active matches Some(a) && a.card.id == attacker_id && meta.contains_key(a.card.def_id@) && (
        meta[a.card.def_id@].types.contains(Type::Darkness) || has_infix(meta[a.card.def_id@].name, "Dark"@)),
        idx == 1 ==> !(players[0].active matches Some(b) && b.card.id == attacker_id),
    ensures
        darkness_bonus_spec(players, meta, attacker_id) == 10 * darkness_count(
            meta,
            players[idx].active->0.attached_energy@,
        ),
{
    let a = players[idx].active->0;
    let m = meta[a.card.def_id@];
    if m.types.contains(Type::Darkness) {
        let j = choose|j: int| 0 <= j < m.types.len() && m.types[j] == Type::Darkness;
        let keys = m.types.map_values(|t: Type| type_key_label(t));
        assert(keys[j] == "darkness"@);
        assert(keys.contains("darkness"@));
    }
}

/// An attacker that is no Active Pokémon, or has neither the Darkness type nor
/// a name containing "Dark", gets no Darkness Energy bonus.
pub proof fn lemma_darkness_bonus_unqualified(
    players: Seq<PlayerState>,
    meta: Map<Seq<char>, CardMetaSpec>,
    attacker_id: CardInstanceId,
)
    requires
        players.len() == 2,
        forall|idx: int|
            0 <= idx < 2 ==> (#[trigger] players[idx].active matches Some(a) ==> (a.card.id == attacker_id
                && meta.contains_key(a.card.def_id@) ==> !meta[a.card.def_id@].types.contains(Type::Darkness)
                && !has_infix(meta[a.card.def_id@].name, "Dark"@))),
    ensures
        darkness_bonus_spec(players, meta, attacker_id) == 0,
{
    reveal_strlit("darkness");
    reveal_strlit("grass");
    reveal_strlit("fire");
    reveal_strlit("water");
    reveal_strlit("lightning");
    reveal_strlit("psychic");
    reveal_strlit("fighting");
    reveal_strlit("metal");
    reveal_strlit("colorless");
    assert forall|t: Type| #[trigger] type_key_label(t) == "darkness"@ implies t == Type::Darkness by {
        if t != Type::Darkness {
            assert(type_key_label(t).len() != 8 || type_key_label(t)[0] != 'd');
        }
    }
    assert forall|idx: int| 0 <= idx < 2 implies !qualifying_active(players, meta, idx, attacker_id) by {
        if let Some(a) = players[idx].active {
            if a.card.id == attacker_id && meta.contains_key(a.card.def_id@) {
                let m = meta[a.card.def_id@];
                let keys = m.types.map_values(|t: Type| type_key_label(t));
                if keys.contains("darkness"@) {
                    let j = choose|j: int| 0 <= j < keys.len() && keys[j] == "darkness"@;
                    assert(type_key_label(m.types[j]) == "darkness"@);
                    assert(m.types.contains(m.types[j]));
                }
            }
        }
    }
}

/// The Darkness Energy counted on a Pokémon are exactly its attached cards
/// whose metadata is a special energy with "Darkness" in its name.
pub proof fn lemma_darkness_count_is_special_darkness(meta: Map<Seq<char>, CardMetaSpec>, cards: Seq<CardInstance>)
    ensures
        darkness_count(meta, cards) == cards.filter(
            |c: CardInstance|
                meta.contains_key(c.def_id@) && meta[c.def_id@].energy_kind == Some("Special"@) && has_infix(
                    meta[c.def_id@].name,
                    "Darkness"@,
                ),
        ).len(),
    decreases cards.len(),
{
    reveal(Seq::filter);
    if cards.len() > 0 {
        lemma_darkness_count_is_special_darkness(meta, cards.drop_last());
    }
}

/// At setup the second policy aims for a bench of three: its first answer
/// benches three basics when the prompt's bounds allow three, else as close
/// to three as they allow (never fewer than the minimum, never more than the
/// maximum or the valid basics); when a minimum is asked, a second answer
/// benches exactly that minimum.
pub proof fn lemma_second_policy_bench_of_three(
    view: GameView,
    options: Vec<CardInstanceId>,
    min: usize,
    max: usize,
    r: Seq<Action>,
)
    requires
        prompt_response_v2_ok(view, Prompt::ChooseBenchBasics { options, min, max }, r),
    ensures
        r.len() >= 1,
        r[0] matches Action::ChooseBench { card_ids } && {
            let valid = keep_allowed(options@, view.action_hints.playable_basic_ids@);
            let n = valid.len() as int;
            let lo = if (min as int) < n { min as int } else { n };
            let hi = if (max as int) < n { max as int } else { n };
            &&& card_ids@.len() >= lo
            &&& (card_ids@.len() <= hi || card_ids@.len() == lo)
            &&& card_ids@.len() <= 3 || card_ids@.len() == lo
            &&& (lo <= 3 && 3 <= hi ==> card_ids@.len() == 3)
            &&& (hi < 3 && lo <= hi ==> card_ids@.len() == hi)
            &&& forall|i: int| 0 <= i < card_ids@.len() ==> valid.contains(#[trigger] card_ids@[i])
        },
        ({
            let n = keep_allowed(options@, view.action_hints.playable_basic_ids@).len() as int;
            let lo = if (min as int) < n { min as int } else { n };
            &&& r.len() == 2 <==> lo > 0
            &&& r.len() <= 2
            &&& r.len() == 2 ==> (r[1] matches Action::ChooseBench { card_ids } && card_ids@.len() == lo)
        }),
{
    let valid = keep_allowed(options@, view.action_hints.playable_basic_ids@);
    let n = valid.len() as int;
    let ids = crate::candidates::picked_by(crate::candidates::Pick::Bench, r[0])->0;
    lemma_random_pick_from_options(ids, valid, crate::random_ai_v2::bench_goal(min, max, n));
    if r.len() == 2 {
        let lo = if (min as int) < n { min as int } else { n };
        let ids2 = crate::candidates::picked_by(crate::candidates::Pick::Bench, r[1])->0;
        lemma_random_pick_from_options(ids2, valid, lo);
    }
}

} // verus!
