//! The first reference policy: random candidates with a strong preference for
//! the attack that does the most damage.
use crate::ai_common::{
    answered_without_drawing, bound_or, bound_or_count, card_ids, choose_k, choose_one, clamp_len, dummy_attack,
    dummy_attack_spec, energy_ids_on, filter_allowed, ids_of_cards, ids_of_pokemon, is_random_pick,
    keep_allowed, lemma_scan_best_step, min3, min_usize, my_energy_ids, pokemon_ids, scan_best,
};
use crate::candidates::{
    Pick, attacks_best_then_shuffled, conditions_first_then_shuffled, conditions_then_shuffled,
    declare_best_then_shuffled, declared, name_views, names_best_then_shuffled, names_then_shuffled,
    ids_first_then_shuffled, ids_then_shuffled, pick_action, picked_by,
};
use crate::model::{
    Action, Attack, AttackSpec, CardInstanceId, GameView, PlayerId, Prompt, attack_views,
    copy_attack, copy_ids,
};
use crate::rng::{gen_ratio, seeded_rng, seeded_state, shuffle_vec};
use rand_chacha::ChaCha8Rng;
use vstd::prelude::*;

verus! {

/// `x` is strictly preferred to `y`: more damage, or as much for less energy.
pub open spec fn gt_damage_then_cheap(x: AttackSpec, y: AttackSpec) -> bool {
    x.damage > y.damage || (x.damage == y.damage && x.total_energy < y.total_energy)
}

pub open spec fn pref_damage_then_cheap() -> spec_fn(AttackSpec, AttackSpec) -> bool {
    |x: AttackSpec, y: AttackSpec| gt_damage_then_cheap(x, y)
}

/// The position of the attack this policy likes best.
pub open spec fn best_damage_then_cheap(views: Seq<AttackSpec>) -> int {
    scan_best(views, pref_damage_then_cheap())
}

/// Position of the best attack: most damage, then least energy; the later of equals.
pub fn best_attack_index(attacks: &[Attack]) -> (r: Option<usize>)
    ensures
        r is None <==> attacks@.len() == 0,
        r matches Some(i) ==> i < attacks@.len() && i == best_damage_then_cheap(attack_views(attacks@)),
{
    if attacks.len() == 0 {
        return None;
    }
    let ghost v = attack_views(attacks@);
    let mut best: usize = 0;
    let mut i: usize = 1;
    while i < attacks.len()
        invariant
            v == attack_views(attacks@),
            1 <= i <= attacks.len(),
            best < i,
            best == scan_best(v.take(i as int), pref_damage_then_cheap()),
        decreases attacks.len() - i,
    {
        proof {
            lemma_scan_best_step(v, pref_damage_then_cheap(), i as int);
        }
        let a = &attacks[best];
        let b = &attacks[i];
        let a_better = a.damage > b.damage || (a.damage == b.damage && a.cost.total_energy
            < b.cost.total_energy);
        if !a_better {
            best = i;
        }
        i = i + 1;
    }
    assert(v.take(attacks.len() as int) =~= v);
    Some(best)
}

/// The attack declared when any is usable: the best of them, else the dummy attack.
pub open spec fn free_attack_choice(usable: Seq<Attack>) -> AttackSpec {
    if usable.len() > 0 {
        attack_views(usable)[best_damage_then_cheap(attack_views(usable))]
    } else {
        dummy_attack_spec()
    }
}

/// What the policy proposes outside prompts: nothing when it is not our turn or
/// a prompt is pending; else at most one basic to play, at most one energy to
/// attach, an attack when one may be declared, and always the end of the turn.
pub open spec fn free_actions_ok(view: GameView, r: Seq<Action>) -> bool {
    let h = view.action_hints;
    if view.current_player != view.player_id || view.pending_prompt is Some {
        r.len() == 0
    } else {
        let nb: int = if h.playable_basic_ids@.len() > 0 {
            1
        } else {
            0
        };
        let ne: int = if h.playable_energy_ids@.len() > 0 && h.attach_targets@.len() > 0 {
            1
        } else {
            0
        };
        let na: int = if h.usable_attacks@.len() > 0 || h.can_declare_attack {
            1
        } else {
            0
        };
        &&& r.len() == nb + ne + na + 1
        &&& nb == 1 ==> (r[0] matches Action::PlayBasic { card_id } && h.playable_basic_ids@.contains(card_id))
        &&& ne == 1 ==> (r[nb] matches Action::AttachEnergy { energy_id, target_id }
            && h.playable_energy_ids@.contains(energy_id) && h.attach_targets@.contains(target_id))
        &&& na == 1 ==> declared(r[nb + ne]) == Some(free_attack_choice(h.usable_attacks@))
        &&& r[nb + ne + na] == Action::EndTurn
    }
}

/// How many basics to bench at setup: the minimum asked for plus one, within what may be benched.
pub open spec fn bench_count(min: usize, max: usize, n: int) -> int {
    let rmin = if (min as int) < n {
        min as int
    } else {
        n
    };
    let m = if (max as int) < n {
        max as int
    } else {
        n
    };
    let amax = if m < rmin {
        rmin
    } else {
        m
    };
    if rmin + 1 <= amax {
        rmin + 1
    } else {
        amax
    }
}

/// The answer for a prompt that asks for a selection among `options`: the end
/// of the turn when the prompt is another player's, or when nothing can be
/// picked though some pick is required; else `take` of the options at random.
pub open spec fn selection_ok(
    view: GameView,
    player: PlayerId,
    options: Seq<CardInstanceId>,
    required_min: int,
    take: int,
    kind: Pick,
    r: Seq<Action>,
) -> bool {
    if player != view.player_id {
        r == seq![Action::EndTurn]
    } else if options.len() == 0 && required_min > 0 {
        r == seq![Action::EndTurn]
    } else {
        r.len() == 1 && (picked_by(kind, r[0]) matches Some(ids) && is_random_pick(ids, options, take))
    }
}

/// The energy the policy hands over when asked for energy attached to `pokemon_id`.
pub open spec fn energy_answer_ok(energies: Seq<CardInstanceId>, required_min: int, count: int, ids: Seq<CardInstanceId>) -> bool {
    if energies.len() == 0 {
        ids.len() == 0
    } else if required_min > 0 {
        is_random_pick(ids, energies, count)
    } else {
        ids.len() == 0 || is_random_pick(ids, energies, count)
    }
}

/// The identifiers a "choose from hand" prompt draws on: its options, else the whole hand.
pub open spec fn hand_pool(view: GameView, options: Seq<CardInstanceId>) -> Seq<CardInstanceId> {
    if options.len() > 0 {
        options
    } else {
        card_ids(view.my_hand@)
    }
}

/// The candidates for a new Active Pokémon: the prompt's options, else our bench.
pub open spec fn new_active_pool(view: GameView, options: Seq<CardInstanceId>) -> Seq<CardInstanceId> {
    if options.len() == 0 {
        pokemon_ids(view.my_bench@)
    } else {
        options
    }
}

/// The answers the policy proposes to a prompt, by kind of prompt.
pub open spec fn prompt_response_ok(view: GameView, prompt: Prompt, r: Seq<Action>) -> bool {
    match prompt {
        Prompt::ChooseStartingActive { options } => {
            let valid = keep_allowed(options@, view.action_hints.playable_basic_ids@);
            if valid.len() > 0 {
                r == seq![Action::ChooseActive { card_id: valid[0] }]
            } else {
                r.len() == 0
            }
        },
        Prompt::ChooseBenchBasics { options, min, max } => {
            let valid = keep_allowed(options@, view.action_hints.playable_basic_ids@);
            r.len() == 1 && (picked_by(Pick::Bench, r[0]) matches Some(ids) && is_random_pick(
                ids,
                valid,
                bench_count(min, max, valid.len() as int),
            ))
        },
        Prompt::ChooseAttack { attacks } => {
            let v = attack_views(attacks@);
            if v.len() == 0 {
                r.len() == 0
            } else {
                attacks_best_then_shuffled(v, best_damage_then_cheap(v), r)
            }
        },
        Prompt::ChooseCardsFromDeck { player, count, options, min, max, .. } => selection_ok(
            view,
            player,
            options@,
            bound_or(min, count) as int,
            min3(bound_or(min, count) as int, bound_or(max, count) as int, options@.len() as int),
            Pick::FromDeck,
            r,
        ),
        Prompt::ChooseCardsFromDiscard { player, count, options, min, max, .. } => selection_ok(
            view,
            player,
            options@,
            bound_or(min, count) as int,
            min3(bound_or(min, count) as int, bound_or(max, count) as int, options@.len() as int),
            Pick::FromDiscard,
            r,
        ),
        Prompt::ChoosePokemonInPlay { player, options, min, max } => selection_ok(
            view,
            player,
            options@,
            0,
            min3(min as int, max as int, options@.len() as int),
            Pick::PokemonTargets,
            r,
        ),
        Prompt::ReorderDeckTop { player, options } => selection_ok(
            view,
            player,
            options@,
            0,
            options@.len() as int,
            Pick::Reorder,
            r,
        ),
        Prompt::ChooseAttachedEnergy { player, pokemon_id, count, min } => {
            if player != view.player_id {
                r == seq![Action::EndTurn]
            } else {
                r.len() == 1 && (picked_by(Pick::AttachedEnergy, r[0]) matches Some(ids)
                    && energy_answer_ok(
                    my_energy_ids(view, pokemon_id),
                    bound_or(min, count) as int,
                    count as int,
                    ids,
                ))
            }
        },
        Prompt::ChooseCardsFromHand { player, count, options, min, max, return_to_deck } => {
            let pool = hand_pool(view, options@);
            selection_ok(
                view,
                player,
                pool,
                bound_or(min, count) as int,
                min3(bound_or(min, count) as int, bound_or(max, count) as int, pool.len() as int),
                if return_to_deck {
                    Pick::ReturnToDeck
                } else {
                    Pick::DiscardFromHand
                },
                r,
            )
        },
        Prompt::ChooseCardsInPlay { player, options, min, max } => selection_ok(
            view,
            player,
            options@,
            0,
            min3(min as int, max as int, options@.len() as int),
            Pick::CardsInPlay,
            r,
        ),
        Prompt::ChoosePrizeCards { player, options, min, max } => selection_ok(
            view,
            player,
            options@,
            0,
            min3(min as int, max as int, options@.len() as int),
            Pick::PrizeCards,
            r,
        ),
        Prompt::ChooseDefenderAttack { player, attacks, .. } => {
            if player != view.player_id {
                r == seq![Action::EndTurn]
            } else {
                names_best_then_shuffled(name_views(attacks@), true, r)
            }
        },
        Prompt::ChoosePokemonAttack { player, attacks, .. } => {
            if player != view.player_id {
                r == seq![Action::EndTurn]
            } else {
                names_best_then_shuffled(name_views(attacks@), false, r)
            }
        },
        Prompt::ChooseSpecialCondition { player, options } => {
            if player != view.player_id {
                r == seq![Action::EndTurn]
            } else {
                conditions_first_then_shuffled(options@, r)
            }
        },
        Prompt::ChooseNewActive { player, options } => {
            if player != view.player_id {
                r == seq![Action::EndTurn]
            } else {
                let pool = new_active_pool(view, options@);
                ids_first_then_shuffled(
                    if pool.len() > 0 {
                        Some(pool[0])
                    } else {
                        None
                    },
                    pool,
                    false,
                    r,
                )
            }
        },
        Prompt::CoinFlipForEffect { .. } => r.len() == 0,
    }
}

/// A very simple policy: proposes a randomized list of candidate actions,
/// to be tried in order until the engine accepts one.
pub struct RandomAi {
    rng: ChaCha8Rng,
}

/// The answer `[EndTurn]`.
pub fn end_turn_only() -> (r: Vec<Action>)
    ensures
        r@ == seq![Action::EndTurn],
{
    let mut v: Vec<Action> = Vec::new();
    v.push(Action::EndTurn);
    v
}

/// A selection answer, or `[EndTurn]` when a required pick is impossible.
pub fn selection_answer(
    rng: &mut ChaCha8Rng,
    options: &[CardInstanceId],
    required_min: usize,
    take: usize,
    kind: Pick,
) -> (r: Vec<Action>)
    ensures
        options@.len() == 0 && required_min > 0 ==> r@ == seq![Action::EndTurn],
        !(options@.len() == 0 && required_min > 0) ==> r@.len() == 1 && (picked_by(kind, r@[0]) matches Some(ids)
            && is_random_pick(ids, options@, take as int)),
{
    if options.len() == 0 && required_min > 0 {
        return end_turn_only();
    }
    let picked = choose_k(rng, options, take);
    let mut v: Vec<Action> = Vec::new();
    v.push(pick_action(kind, picked));
    v
}

impl RandomAi {
    /// The generator the policy draws from.
    pub closed spec fn generator(self) -> ChaCha8Rng {
        self.rng
    }

    /// A policy whose generator is seeded from `seed`.
    pub fn new(seed: u64) -> (r: RandomAi)
        ensures
            r.generator() == seeded_state(seed),
    {
        RandomAi { rng: seeded_rng(seed) }
    }

    /// Puts the actions in a random order.
    pub fn shuffle_actions(&mut self, actions: &mut Vec<Action>)
        ensures
            final(actions)@.len() == old(actions)@.len(),
            final(actions)@.to_multiset() == old(actions)@.to_multiset(),
    {
        shuffle_vec(&mut self.rng, actions);
    }

    /// The candidate answers to `prompt`, in the order to try them.
    #[verifier::spinoff_prover]
    #[verifier::rlimit(40)]
    pub fn propose_prompt_response(&mut self, view: &GameView, prompt: &Prompt) -> (r: Vec<Action>)
        ensures
            prompt_response_ok(*view, *prompt, r@),
            answered_without_drawing(*view, *prompt) || prompt is ChooseStartingActive ==> *final(self) == *old(
                self,
            ),
    {
        match prompt {
            Prompt::ChooseStartingActive { options } => {
                let valid = filter_allowed(options.as_slice(), view.action_hints.playable_basic_ids.as_slice());
                let mut actions: Vec<Action> = Vec::new();
                if valid.len() > 0 {
                    actions.push(Action::ChooseActive { card_id: valid[0] });
                }
                actions
            },
            Prompt::ChooseBenchBasics { options, min, max } => {
                let valid = filter_allowed(options.as_slice(), view.action_hints.playable_basic_ids.as_slice());
                let required_min = min_usize(*min, valid.len());
                let capped_max = min_usize(*max, valid.len());
                let allowed_max = if capped_max < required_min {
                    required_min
                } else {
                    capped_max
                };
                let desired = if required_min < allowed_max {
                    required_min + 1
                } else {
                    allowed_max
                };
                let picked = choose_k(&mut self.rng, valid.as_slice(), desired);
                let mut actions: Vec<Action> = Vec::new();
                actions.push(Action::ChooseBench { card_ids: picked });
                actions
            },
            Prompt::ChooseAttack { attacks } => {
                match best_attack_index(attacks.as_slice()) {
                    Some(b) => declare_best_then_shuffled(&mut self.rng, attacks.as_slice(), b),
                    None => Vec::new(),
                }
            },
            Prompt::ChooseCardsFromDeck { player, count, options, min, max, .. } => {
                if *player != view.player_id {
                    return end_turn_only();
                }
                let rmin = bound_or_count(*min, *count);
                let rmax = bound_or_count(*max, *count);
                let take = min_usize(min_usize(rmin, rmax), options.len());
                selection_answer(&mut self.rng, options.as_slice(), rmin, take, Pick::FromDeck)
            },
            Prompt::ChooseCardsFromDiscard { player, count, options, min, max, .. } => {
                if *player != view.player_id {
                    return end_turn_only();
                }
                let rmin = bound_or_count(*min, *count);
                let rmax = bound_or_count(*max, *count);
                let take = min_usize(min_usize(rmin, rmax), options.len());
                selection_answer(&mut self.rng, options.as_slice(), rmin, take, Pick::FromDiscard)
            },
            Prompt::ChoosePokemonInPlay { player, options, min, max } => {
                if *player != view.player_id {
                    return end_turn_only();
                }
                let take = min_usize(min_usize(*min, *max), options.len());
                selection_answer(&mut self.rng, options.as_slice(), 0, take, Pick::PokemonTargets)
            },
            Prompt::ReorderDeckTop { player, options } => {
                if *player != view.player_id {
                    return end_turn_only();
                }
                selection_answer(&mut self.rng, options.as_slice(), 0, options.len(), Pick::Reorder)
            },
            Prompt::ChooseAttachedEnergy { player, pokemon_id, count, min } => {
                if *player != view.player_id {
                    return end_turn_only();
                }
                let required_min = bound_or_count(*min, *count);
                let mut energies = energy_ids_on(view, *pokemon_id);
                let ghost given = energies@;
                shuffle_vec(&mut self.rng, &mut energies);
                let ghost perm = energies@;
                let mut actions: Vec<Action> = Vec::new();
                if energies.len() == 0 || (required_min == 0 && gen_ratio(&mut self.rng, 1, 2)) {
                    actions.push(Action::ChooseAttachedEnergy { energy_ids: Vec::new() });
                } else {
                    energies.truncate(*count);
                    assert(perm.to_multiset() == given.to_multiset() && perm.len() == given.len()
                        && energies@ == perm.take(clamp_len(*count as int, perm.len() as int)));
                    actions.push(Action::ChooseAttachedEnergy { energy_ids: energies });
                }
                actions
            },
            Prompt::ChooseCardsFromHand { player, count, options, min, max, return_to_deck } => {
                if *player != view.player_id {
                    return end_turn_only();
                }
                let rmin = bound_or_count(*min, *count);
                let rmax = bound_or_count(*max, *count);
                let pool = if options.len() > 0 {
                    copy_ids(options.as_slice())
                } else {
                    ids_of_cards(view.my_hand.as_slice())
                };
                let take = min_usize(min_usize(rmin, rmax), pool.len());
                let kind = if *return_to_deck {
                    Pick::ReturnToDeck
                } else {
                    Pick::DiscardFromHand
                };
                selection_answer(&mut self.rng, pool.as_slice(), rmin, take, kind)
            },
            Prompt::ChooseCardsInPlay { player, options, min, max } => {
                if *player != view.player_id {
                    return end_turn_only();
                }
                let take = min_usize(min_usize(*min, *max), options.len());
                selection_answer(&mut self.rng, options.as_slice(), 0, take, Pick::CardsInPlay)
            },
            Prompt::ChoosePrizeCards { player, options, min, max } => {
                if *player != view.player_id {
                    return end_turn_only();
                }
                let take = min_usize(min_usize(*min, *max), options.len());
                selection_answer(&mut self.rng, options.as_slice(), 0, take, Pick::PrizeCards)
            },
            Prompt::ChooseDefenderAttack { player, attacks, .. } => {
                if *player != view.player_id {
                    return end_turn_only();
                }
                names_then_shuffled(&mut self.rng, attacks.as_slice(), true)
            },
            Prompt::ChoosePokemonAttack { player, attacks, .. } => {
                if *player != view.player_id {
                    return end_turn_only();
                }
                names_then_shuffled(&mut self.rng, attacks.as_slice(), false)
            },
            Prompt::ChooseSpecialCondition { player, options } => {
                if *player != view.player_id {
                    return end_turn_only();
                }
                conditions_then_shuffled(&mut self.rng, options.as_slice())
            },
            Prompt::ChooseNewActive { player, options } => {
                if *player != view.player_id {
                    return end_turn_only();
                }
                let candidates = if options.len() == 0 {
                    ids_of_pokemon(view.my_bench.as_slice())
                } else {
                    copy_ids(options.as_slice())
                };
                let first = if candidates.len() > 0 {
                    Some(candidates[0])
                } else {
                    None
                };
                ids_then_shuffled(&mut self.rng, first, candidates.as_slice(), false)
            },
            Prompt::CoinFlipForEffect { .. } => Vec::new(),
        }
    }

    /// The candidate actions on our own turn, outside prompts.
    pub fn propose_free_actions(&mut self, view: &GameView) -> (r: Vec<Action>)
        ensures
            free_actions_ok(*view, r@),
            view.current_player != view.player_id || view.pending_prompt is Some ==> *final(self) == *old(self),
    {
        let mut actions: Vec<Action> = Vec::new();
        if view.current_player != view.player_id {
            return actions;
        }
        if view.pending_prompt.is_some() {
            return actions;
        }
        let hints = &view.action_hints;
        if let Some(card_id) = choose_one(&mut self.rng, hints.playable_basic_ids.as_slice()) {
            actions.push(Action::PlayBasic { card_id });
        }
        if let Some(energy_id) = choose_one(&mut self.rng, hints.playable_energy_ids.as_slice()) {
            if let Some(target_id) = choose_one(&mut self.rng, hints.attach_targets.as_slice()) {
                actions.push(Action::AttachEnergy { energy_id, target_id });
            }
        }
        match best_attack_index(hints.usable_attacks.as_slice()) {
            Some(b) => {
                actions.push(Action::DeclareAttack { attack: copy_attack(&hints.usable_attacks[b]) });
            },
            None => {
                if hints.can_declare_attack {
                    actions.push(Action::DeclareAttack { attack: dummy_attack() });
                }
            },
        }
        actions.push(Action::EndTurn);
        actions
    }
}

} // verus!
