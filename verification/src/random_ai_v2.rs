//! The second reference policy: like the first, but it spreads energy, benches
//! more eagerly, answers with the count a prompt asks for, and gives up the
//! least useful cards of its hand.
use crate::ai_common::{
    answered_without_drawing, bound_or, bound_or_count, choose_k, choose_one, clamp_len, dummy_attack, dummy_attack_spec,
    energy_ids_on, filter_allowed, ids_of_cards, ids_of_pokemon, is_random_pick, keep_allowed,
    min3, min_usize,
};
use crate::candidates::{
    Pick, active_choice, attacks_best_then_shuffled, conditions_first_then_shuffled,
    conditions_then_shuffled, declare_best_then_shuffled, declared, ids_first_then_shuffled,
    ids_then_shuffled, name_views, names_best_then_shuffled, names_then_shuffled, pick_action,
    picked_by,
};
use crate::heuristics::{
    attach_target_ok, best_attack_damage_first, best_damage_first, choose_attach_target,
    disposable_pick_ok, extreme_energy, pick_hand_cards_disposable, pick_target_by_energy,
    should_play_basic_now,
};
use crate::model::{
    Action, AttackSpec, CardInstanceId, GameView, Prompt, attack_views, copy_attack, copy_ids,
};
use crate::random_ai::{
    end_turn_only, energy_answer_ok, hand_pool, new_active_pool, selection_answer, selection_ok,
};
use crate::rng::{gen_ratio, seeded_rng, seeded_state, shuffle_vec};
use rand_chacha::ChaCha8Rng;
use vstd::prelude::*;

verus! {

/// `x` kept within `lo..=hi` (which must not be empty), as `Ord::clamp` does.
pub open spec fn clamp(x: int, lo: int, hi: int) -> int {
    if x < lo {
        lo
    } else if x > hi {
        hi
    } else {
        x
    }
}

fn clamp_usize(x: usize, lo: usize, hi: usize) -> (r: usize)
    requires
        lo <= hi,
    ensures
        r == clamp(x as int, lo as int, hi as int),
{
    if x < lo {
        lo
    } else if x > hi {
        hi
    } else {
        x
    }
}

/// The attack declared outside prompts: the best by damage first, else the dummy attack.
pub open spec fn attack_choice_damage_first(usable: Seq<crate::model::Attack>) -> AttackSpec {
    if usable.len() > 0 {
        attack_views(usable)[best_damage_first(attack_views(usable))]
    } else {
        dummy_attack_spec()
    }
}

/// What the policy proposes outside prompts: nothing when it is not our turn
/// or a prompt is pending; else an energy attachment when one is possible, a
/// basic to bench when it wants one (always below 3 benched, never at 5), an
/// attack when one may be declared, and always the end of the turn.
pub open spec fn free_actions_v2_ok(view: GameView, r: Seq<Action>) -> bool {
    let h = view.action_hints;
    if view.current_player != view.player_id || view.pending_prompt is Some {
        r.len() == 0
    } else {
        let can_attack_now = h.can_declare_attack && h.usable_attacks@.len() > 0;
        let ne: int = if h.playable_energy_ids@.len() > 0 && h.attach_targets@.len() > 0 {
            1
        } else {
            0
        };
        let na: int = if h.usable_attacks@.len() > 0 || h.can_declare_attack {
            1
        } else {
            0
        };
        let nb: int = r.len() - ne - na - 1;
        &&& nb == 0 || nb == 1
        &&& ne == 1 ==> (r[0] matches Action::AttachEnergy { energy_id, target_id }
            && h.playable_energy_ids@.contains(energy_id) && attach_target_ok(
            view,
            h.attach_targets@,
            can_attack_now,
            !can_attack_now,
            Some(target_id),
        ))
        &&& nb == 1 ==> (r[ne] matches Action::PlayBasic { card_id } && h.playable_basic_ids@.contains(card_id))
        &&& h.playable_basic_ids@.len() > 0 && view.my_bench@.len() < 3 ==> nb == 1
        &&& view.my_bench@.len() >= 5 ==> nb == 0
        &&& na == 1 ==> declared(r[ne + nb]) == Some(attack_choice_damage_first(h.usable_attacks@))
        &&& r[ne + nb + na] == Action::EndTurn
    }
}

/// A first random pick of `take` options and, when the minimum differs, a
/// second of `min_take`.
pub open spec fn two_random_picks_ok(options: Seq<CardInstanceId>, take: int, min_take: int, kind: Pick, r: Seq<Action>) -> bool {
    &&& r.len() == if min_take != take {
        2int
    } else {
        1int
    }
    &&& picked_by(kind, r[0]) matches Some(a) && is_random_pick(a, options, take)
    &&& min_take != take ==> (picked_by(kind, r[1]) matches Some(b) && is_random_pick(b, options, min_take))
}

/// The answer to a deck or discard selection: the end of the turn when the
/// prompt is another player's or a required pick is impossible; else as many
/// as the prompt's count (kept within its bounds), and the minimum as a fallback.
pub open spec fn counted_selection_ok(
    view: GameView,
    player: crate::model::PlayerId,
    count: usize,
    options: Seq<CardInstanceId>,
    min: Option<usize>,
    max: Option<usize>,
    kind: Pick,
    r: Seq<Action>,
) -> bool {
    let rmin = bound_or(min, count) as int;
    let rmax = bound_or(max, count) as int;
    if player != view.player_id {
        r == seq![Action::EndTurn]
    } else if options.len() == 0 && rmin > 0 {
        r == seq![Action::EndTurn]
    } else {
        two_random_picks_ok(
            options,
            clamp_len(clamp(count as int, rmin, rmax), options.len() as int),
            clamp_len(rmin, options.len() as int),
            kind,
            r,
        )
    }
}

/// How many basics to bench at setup: 3, kept within what is required and allowed.
pub open spec fn bench_goal(min: usize, max: usize, n: int) -> int {
    let rmin = if (min as int) < n {
        min as int
    } else {
        n
    };
    let m = if (max as int) < n {
        max as int
    } else {
        n
    };
    let amax = if m < rmin {
        rmin
    } else {
        m
    };
    if amax == 0 {
        0
    } else {
        clamp(3, rmin, amax)
    }
}

/// The prompts this policy can answer without a contradiction in them: a
/// selection it answers by count must not ask for a minimum above its maximum.
pub open spec fn prompt_v2_answerable(view: GameView, prompt: Prompt) -> bool {
    match prompt {
        Prompt::ChooseCardsFromDeck { player, count, options, min, max, .. } => player
            == view.player_id && !(options@.len() == 0 && bound_or(min, count) > 0) ==> bound_or(min, count)
            <= bound_or(max, count),
        Prompt::ChooseCardsFromDiscard { player, count, options, min, max, .. } => player
            == view.player_id && !(options@.len() == 0 && bound_or(min, count) > 0) ==> bound_or(min, count)
            <= bound_or(max, count),
        Prompt::ChooseCardsFromHand { player, count, options, min, max, .. } => player
            == view.player_id && !(hand_pool(view, options@).len() == 0 && bound_or(min, count) > 0)
            ==> bound_or(min, count) <= bound_or(max, count),
        _ => true,
    }
}

/// The answers the second policy proposes to a prompt.
pub open spec fn prompt_response_v2_ok(view: GameView, prompt: Prompt, r: Seq<Action>) -> bool {
    match prompt {
        Prompt::ChooseStartingActive { options } => {
            let valid = keep_allowed(options@, view.action_hints.playable_basic_ids@);
            ids_first_then_shuffled(
                if valid.len() > 0 {
                    Some(valid[0])
                } else {
                    None
                },
                valid,
                true,
                r,
            )
        },
        Prompt::ChooseBenchBasics { options, min, max } => {
            let valid = keep_allowed(options@, view.action_hints.playable_basic_ids@);
            let rmin = if (min as int) < valid.len() {
                min as int
            } else {
                valid.len() as int
            };
            &&& r.len() == if rmin > 0 {
                2int
            } else {
                1int
            }
            &&& picked_by(Pick::Bench, r[0]) matches Some(a) && is_random_pick(
                a,
                valid,
                bench_goal(min, max, valid.len() as int),
            )
            &&& rmin > 0 ==> (picked_by(Pick::Bench, r[1]) matches Some(b) && is_random_pick(b, valid, rmin))
        },
        Prompt::ChooseAttack { attacks } => {
            let v = attack_views(attacks@);
            if v.len() == 0 {
                r.len() == 0
            } else {
                attacks_best_then_shuffled(v, best_damage_first(v), r)
            }
        },
        Prompt::ChooseCardsFromDeck { player, count, options, min, max, .. } => counted_selection_ok(
            view,
            player,
            count,
            options@,
            min,
            max,
            Pick::FromDeck,
            r,
        ),
        Prompt::ChooseCardsFromDiscard { player, count, options, min, max, .. } => counted_selection_ok(
            view,
            player,
            count,
            options@,
            min,
            max,
            Pick::FromDiscard,
            r,
        ),
        Prompt::ChoosePokemonInPlay { player, options, min, max } => selection_ok(
            view,
            player,
            options@,
            0,
            min3(min as int, max as int, options@.len() as int),
            Pick::PokemonTargets,
            r,
        ),
        Prompt::ReorderDeckTop { player, options } => selection_ok(
            view,
            player,
            options@,
            0,
            options@.len() as int,
            Pick::Reorder,
            r,
        ),
        Prompt::ChooseAttachedEnergy { player, pokemon_id, count, min } => {
            if player != view.player_id {
                r == seq![Action::EndTurn]
            } else {
                let rmin = bound_or(min, count) as int;
                r.len() == 1 && (picked_by(Pick::AttachedEnergy, r[0]) matches Some(ids)
                    && energy_answer_ok(
                    crate::ai_common::my_energy_ids(view, pokemon_id),
                    rmin,
                    if (count as int) < rmin {
                        rmin
                    } else {
                        count as int
                    },
                    ids,
                ))
            }
        },
        Prompt::ChooseCardsFromHand { player, count, options, min, max, return_to_deck } => {
            let pool = hand_pool(view, options@);
            let rmin = bound_or(min, count) as int;
            let rmax = bound_or(max, count) as int;
            let kind = if return_to_deck {
                Pick::ReturnToDeck
            } else {
                Pick::DiscardFromHand
            };
            if player != view.player_id {
                r == seq![Action::EndTurn]
            } else if pool.len() == 0 && rmin > 0 {
                r == seq![Action::EndTurn]
            } else {
                let take = clamp_len(clamp(count as int, rmin, rmax), pool.len() as int);
                let min_take = clamp_len(rmin, pool.len() as int);
                &&& r.len() == if min_take != take {
                    2int
                } else {
                    1int
                }
                &&& picked_by(kind, r[0]) matches Some(a) && disposable_pick_ok(view, pool, take, a)
                &&& min_take != take ==> (picked_by(kind, r[1]) matches Some(b) && disposable_pick_ok(
                    view,
                    pool,
                    min_take,
                    b,
                ))
            }
        },
        Prompt::ChooseCardsInPlay { player, options, min, max } => selection_ok(
            view,
            player,
            options@,
            0,
            min3(min as int, max as int, options@.len() as int),
            Pick::CardsInPlay,
            r,
        ),
        Prompt::ChoosePrizeCards { player, options, min, max } => selection_ok(
            view,
            player,
            options@,
            0,
            min3(min as int, max as int, options@.len() as int),
            Pick::PrizeCards,
            r,
        ),
        Prompt::ChooseDefenderAttack { player, attacks, .. } => {
            if player != view.player_id {
                r == seq![Action::EndTurn]
            } else {
                names_best_then_shuffled(name_views(attacks@), true, r)
            }
        },
        Prompt::ChoosePokemonAttack { player, attacks, .. } => {
            if player != view.player_id {
                r == seq![Action::EndTurn]
            } else {
                names_best_then_shuffled(name_views(attacks@), false, r)
            }
        },
        Prompt::ChooseSpecialCondition { player, options } => {
            if player != view.player_id {
                r == seq![Action::EndTurn]
            } else {
                conditions_first_then_shuffled(options@, r)
            }
        },
        Prompt::ChooseNewActive { player, options } => {
            if player != view.player_id {
                r == seq![Action::EndTurn]
            } else {
                let pool = new_active_pool(view, options@);
                if pool.len() == 0 {
                    r.len() == 0
                } else {
                    active_choice(r[0], false) matches Some(t) && extreme_energy(view, pool, true, t)
                        && ids_first_then_shuffled(Some(t), pool, false, r)
                }
            }
        },
        Prompt::CoinFlipForEffect { .. } => r.len() == 0,
    }
}

pub struct RandomAiV2 {
    rng: ChaCha8Rng,
}

/// A random pick of `take` and, when the minimum differs, of `min_take` as well.
fn two_random_picks(
    rng: &mut ChaCha8Rng,
    options: &[CardInstanceId],
    take: usize,
    min_take: usize,
    kind: Pick,
) -> (r: Vec<Action>)
    ensures
        two_random_picks_ok(options@, take as int, min_take as int, kind, r@),
{
    let mut actions: Vec<Action> = Vec::new();
    let picked = choose_k(rng, options, take);
    actions.push(pick_action(kind, picked));
    if min_take != take {
        let picked_min = choose_k(rng, options, min_take);
        actions.push(pick_action(kind, picked_min));
    }
    actions
}

impl RandomAiV2 {
    /// The generator the policy draws from.
    pub closed spec fn generator(self) -> ChaCha8Rng {
        self.rng
    }

    /// A policy whose generator is seeded from `seed`.
    pub fn new(seed: u64) -> (r: RandomAiV2)
        ensures
            r.generator() == seeded_state(seed),
    {
        RandomAiV2 { rng: seeded_rng(seed) }
    }

    /// The best Pokémon to promote: the candidate with the most energy (ties at random).
    pub fn choose_new_active_best(&mut self, view: &GameView, options: &[CardInstanceId]) -> (r: Option<CardInstanceId>)
        ensures
            new_active_pool(*view, options@).len() == 0 <==> r is None,
            r matches Some(t) ==> extreme_energy(*view, new_active_pool(*view, options@), true, t),
    {
        replacement_by_energy(&mut self.rng, view, options)
    }

    /// The candidate answers to `prompt`, in the order to try them.
    pub fn propose_prompt_response(&mut self, view: &GameView, prompt: &Prompt) -> (r: Vec<Action>)
        requires
            prompt_v2_answerable(*view, *prompt),
        ensures
            prompt_response_v2_ok(*view, *prompt, r@),
            answered_without_drawing(*view, *prompt) ==> *final(self) == *old(self),
    {
        answer_prompt(&mut self.rng, view, prompt)
    }
}

/// The answer to a deck or discard selection.
fn counted_selection(
    rng: &mut ChaCha8Rng,
    view: &GameView,
    player: crate::model::PlayerId,
    count: usize,
    options: &[CardInstanceId],
    min: Option<usize>,
    max: Option<usize>,
    kind: Pick,
) -> (r: Vec<Action>)
    requires
        player == view.player_id && !(options@.len() == 0 && bound_or(min, count) > 0) ==> bound_or(
            min,
            count,
        ) <= bound_or(max, count),
    ensures
        counted_selection_ok(*view, player, count, options@, min, max, kind, r@),
        player != view.player_id ==> *final(rng) == *old(rng),
{
    if player != view.player_id {
        return end_turn_only();
    }
    let rmin = bound_or_count(min, count);
    let rmax = bound_or_count(max, count);
    if options.len() == 0 && rmin > 0 {
        return end_turn_only();
    }
    let desired = clamp_usize(count, rmin, rmax);
    let take = min_usize(desired, options.len());
    let min_take = min_usize(rmin, options.len());
    two_random_picks(rng, options, take, min_take, kind)
}

/// The candidate with the most energy (ties at random).
fn replacement_by_energy(rng: &mut ChaCha8Rng, view: &GameView, options: &[CardInstanceId]) -> (r: Option<CardInstanceId>)
    ensures
        new_active_pool(*view, options@).len() == 0 <==> r is None,
        r matches Some(t) ==> extreme_energy(*view, new_active_pool(*view, options@), true, t),
{
    let candidates = if options.len() > 0 {
        copy_ids(options)
    } else {
        ids_of_pokemon(view.my_bench.as_slice())
    };
    if candidates.len() == 0 {
        return None;
    }
    pick_target_by_energy(rng, view, candidates.as_slice(), true)
}

/// The second policy's answers to `prompt`, drawing on `rng`.
pub(crate) fn answer_prompt(rng: &mut ChaCha8Rng, view: &GameView, prompt: &Prompt) -> (r: Vec<Action>)
    requires
        prompt_v2_answerable(*view, *prompt),
    ensures
        prompt_response_v2_ok(*view, *prompt, r@),
        answered_without_drawing(*view, *prompt) ==> *final(rng) == *old(rng),
{
    match prompt {
        Prompt::ChooseStartingActive { options } => {
            let valid = filter_allowed(options.as_slice(), view.action_hints.playable_basic_ids.as_slice());
            let first = if valid.len() > 0 {
                Some(valid[0])
            } else {
                None
            };
            ids_then_shuffled(rng, first, valid.as_slice(), true)
        },
        Prompt::ChooseBenchBasics { options, min, max } => {
            let valid = filter_allowed(options.as_slice(), view.action_hints.playable_basic_ids.as_slice());
            let required_min = min_usize(*min, valid.len());
            let capped_max = min_usize(*max, valid.len());
            let allowed_max = if capped_max < required_min {
                required_min
            } else {
                capped_max
            };
            let desired = if allowed_max == 0 {
                0
            } else {
                clamp_usize(3, required_min, allowed_max)
            };
            let mut actions: Vec<Action> = Vec::new();
            let picked = choose_k(rng, valid.as_slice(), desired);
            actions.push(Action::ChooseBench { card_ids: picked });
            if required_min > 0 {
                let picked_min = choose_k(rng, valid.as_slice(), required_min);
                actions.push(Action::ChooseBench { card_ids: picked_min });
            }
            actions
        },
        Prompt::ChooseAttack { attacks } => {
            match best_attack_damage_first(attacks.as_slice()) {
                Some(b) => declare_best_then_shuffled(rng, attacks.as_slice(), b),
                None => Vec::new(),
            }
        },
        Prompt::ChooseCardsFromDeck { player, count, options, min, max, .. } => {
            counted_selection(rng, view, *player, *count, options.as_slice(), *min, *max, Pick::FromDeck)
        },
        Prompt::ChooseCardsFromDiscard { player, count, options, min, max, .. } => {
            counted_selection(rng, view, *player, *count, options.as_slice(), *min, *max, Pick::FromDiscard)
        },
        Prompt::ChoosePokemonInPlay { player, options, min, max } => {
            if *player != view.player_id {
                return end_turn_only();
            }
            let take = min_usize(min_usize(*min, *max), options.len());
            selection_answer(rng, options.as_slice(), 0, take, Pick::PokemonTargets)
        },
        Prompt::ReorderDeckTop { player, options } => {
            if *player != view.player_id {
                return end_turn_only();
            }
            selection_answer(rng, options.as_slice(), 0, options.len(), Pick::Reorder)
        },
        Prompt::ChooseAttachedEnergy { player, pokemon_id, count, min } => {
            if *player != view.player_id {
                return end_turn_only();
            }
            let required_min = bound_or_count(*min, *count);
            let mut energies = energy_ids_on(view, *pokemon_id);
            let ghost given = energies@;
            shuffle_vec(rng, &mut energies);
            let ghost perm = energies@;
            let mut actions: Vec<Action> = Vec::new();
            if energies.len() == 0 {
                actions.push(Action::ChooseAttachedEnergy { energy_ids: Vec::new() });
                return actions;
            }
            if required_min == 0 && gen_ratio(rng, 3, 4) {
                actions.push(Action::ChooseAttachedEnergy { energy_ids: Vec::new() });
            } else {
                let want = if *count < required_min {
                    required_min
                } else {
                    *count
                };
                let take = min_usize(want, energies.len());
                energies.truncate(take);
                assert(perm.to_multiset() == given.to_multiset() && perm.len() == given.len()
                    && energies@ == perm.take(clamp_len(want as int, perm.len() as int)));
                actions.push(Action::ChooseAttachedEnergy { energy_ids: energies });
            }
            actions
        },
        Prompt::ChooseCardsFromHand { player, count, options, min, max, return_to_deck } => {
            if *player != view.player_id {
                return end_turn_only();
            }
            let rmin = bound_or_count(*min, *count);
            let rmax = bound_or_count(*max, *count);
            let pool = if options.len() > 0 {
                copy_ids(options.as_slice())
            } else {
                ids_of_cards(view.my_hand.as_slice())
            };
            if pool.len() == 0 && rmin > 0 {
                return end_turn_only();
            }
            let desired = clamp_usize(*count, rmin, rmax);
            let take = min_usize(desired, pool.len());
            let kind = if *return_to_deck {
                Pick::ReturnToDeck
            } else {
                Pick::DiscardFromHand
            };
            let mut actions: Vec<Action> = Vec::new();
            let picked = pick_hand_cards_disposable(rng, view, pool.as_slice(), take);
            actions.push(pick_action(kind, picked));
            let min_take = min_usize(rmin, pool.len());
            if min_take != take {
                let picked_min = pick_hand_cards_disposable(rng, view, pool.as_slice(), min_take);
                actions.push(pick_action(kind, picked_min));
            }
            actions
        },
        Prompt::ChooseCardsInPlay { player, options, min, max } => {
            if *player != view.player_id {
                return end_turn_only();
            }
            let take = min_usize(min_usize(*min, *max), options.len());
            selection_answer(rng, options.as_slice(), 0, take, Pick::CardsInPlay)
        },
        Prompt::ChoosePrizeCards { player, options, min, max } => {
            if *player != view.player_id {
                return end_turn_only();
            }
            let take = min_usize(min_usize(*min, *max), options.len());
            selection_answer(rng, options.as_slice(), 0, take, Pick::PrizeCards)
        },
        Prompt::ChooseDefenderAttack { player, attacks, .. } => {
            if *player != view.player_id {
                return end_turn_only();
            }
            names_then_shuffled(rng, attacks.as_slice(), true)
        },
        Prompt::ChoosePokemonAttack { player, attacks, .. } => {
            if *player != view.player_id {
                return end_turn_only();
            }
            names_then_shuffled(rng, attacks.as_slice(), false)
        },
        Prompt::ChooseSpecialCondition { player, options } => {
            if *player != view.player_id {
                return end_turn_only();
            }
            conditions_then_shuffled(rng, options.as_slice())
        },
        Prompt::ChooseNewActive { player, options } => {
            if *player != view.player_id {
                return end_turn_only();
            }
            let best = replacement_by_energy(rng, view, options.as_slice());
            let candidates = if options.len() == 0 {
                ids_of_pokemon(view.my_bench.as_slice())
            } else {
                copy_ids(options.as_slice())
            };
            ids_then_shuffled(rng, best, candidates.as_slice(), false)
        },
        Prompt::CoinFlipForEffect { .. } => Vec::new(),
    }
}

impl RandomAiV2 {
    /// The candidate actions on our own turn, outside prompts.
    pub fn propose_free_actions(&mut self, view: &GameView) -> (r: Vec<Action>)
        ensures
            free_actions_v2_ok(*view, r@),
            view.current_player != view.player_id || view.pending_prompt is Some ==> *final(self) == *old(self),
    {
        let mut actions: Vec<Action> = Vec::new();
        if view.current_player != view.player_id {
            return actions;
        }
        if view.pending_prompt.is_some() {
            return actions;
        }
        let hints = &view.action_hints;
        let can_attack_now = hints.can_declare_attack && hints.usable_attacks.len() > 0;
        let can_attach_energy = hints.playable_energy_ids.len() > 0 && hints.attach_targets.len() > 0;
        let can_play_basic = hints.playable_basic_ids.len() > 0;
        let want_play_basic = can_play_basic && should_play_basic_now(&mut self.rng, view, 1, 5);
        if can_attach_energy {
            if let Some(target_id) = choose_attach_target(
                &mut self.rng,
                view,
                hints.attach_targets.as_slice(),
                can_attack_now,
                !can_attack_now,
            ) {
                if let Some(energy_id) = choose_one(&mut self.rng, hints.playable_energy_ids.as_slice()) {
                    actions.push(Action::AttachEnergy { energy_id, target_id });
                }
            }
        }
        if want_play_basic {
            if let Some(card_id) = choose_one(&mut self.rng, hints.playable_basic_ids.as_slice()) {
                actions.push(Action::PlayBasic { card_id });
            }
        }
        match best_attack_damage_first(hints.usable_attacks.as_slice()) {
            Some(b) => {
                actions.push(Action::DeclareAttack { attack: copy_attack(&hints.usable_attacks[b]) });
            },
            None => {
                if hints.can_declare_attack {
                    actions.push(Action::DeclareAttack { attack: dummy_attack() });
                }
            },
        }
        actions.push(Action::EndTurn);
        actions
    }
}

} // verus!
