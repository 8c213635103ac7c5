//! The third reference policy: the second one, made aware of the opponent. It
//! scores attacks against the defending Pokémon, evolves and plays trainers
//! first, protects a weakened Active Pokémon, and targets the weakest Pokémon.
use crate::ai_common::{
    answered_without_drawing, choose_k, choose_one, dummy_attack, dummy_attack_spec, find_my_pokemon, find_opponent_pokemon,
    greedy_min_order, ids_of_pokemon, is_greedy_min, is_random_pick, lemma_scan_best_push,
    lemma_scan_best_step, min3, min_usize, my_energy_count, my_pokemon, opponent_pokemon, scan_best,
    attached_energy_count_on,
};
use crate::candidates::{
    Pick, attacks_best_then_shuffled, declare_best_then_shuffled, declared, ids_first_then_shuffled,
    ids_then_shuffled, picked_by,
};
use crate::heuristics::{attach_target_ok, choose_attach_target, should_play_basic_now};
use crate::model::{
    Action, ActionHints, Attack, AttackSpec, CardInstanceId, GameView, PokemonView, Prompt,
    attack_views, copy_attack, copy_ids,
};
use crate::random_ai::{end_turn_only, new_active_pool};
use crate::random_ai_v2::{answer_prompt, prompt_response_v2_ok, prompt_v2_answerable};
use crate::rng::{seeded_rng, seeded_state};
use crate::text::{seq_less, str_less};
use rand_chacha::ChaCha8Rng;
use vstd::prelude::*;

verus! {

/// HP left: the HP less 10 per damage counter, never below 0.
pub open spec fn remaining_hp(p: PokemonView) -> int {
    let r = p.hp as int - 10 * p.damage_counters as int;
    if r < 0 {
        0
    } else {
        r
    }
}

pub fn remaining_hp_of(p: &PokemonView) -> (r: i32)
    ensures
        r == remaining_hp(*p),
        0 <= r <= p.hp,
{
    let damage = p.damage_counters as i32 * 10;
    let remaining = p.hp as i32 - damage;
    if remaining < 0 {
        0
    } else {
        remaining
    }
}

/// The damage an attack would do to the defender, after its Weakness (which
/// multiplies) and Resistance (which subtracts, down to 0).
pub open spec fn expected_damage(a: AttackSpec, defender: Option<PokemonView>) -> int {
    let d = a.damage as int;
    match defender {
        None => d,
        Some(p) => {
            let d1 = match p.weakness {
                Some(w) => if w.type_ == a.attack_type {
                    d * w.multiplier as int
                } else {
                    d
                },
                None => d,
            };
            let d2 = match p.resistance {
                Some(res) => if res.type_ == a.attack_type {
                    if d1 - res.value as int > 0 {
                        d1 - res.value as int
                    } else {
                        0
                    }
                } else {
                    d1
                },
                None => d1,
            };
            if d2 > 0 {
                d2
            } else {
                0
            }
        },
    }
}

pub fn expected_damage_vs(attack: &Attack, defender: Option<&PokemonView>) -> (r: i64)
    ensures
        r == expected_damage(attack@, match defender {
            Some(p) => Some(*p),
            None => None,
        }),
        0 <= r <= 65535 * 255,
{
    let mut damage: i64 = attack.damage as i64;
    if let Some(p) = defender {
        if let Some(w) = p.weakness {
            if w.type_ == attack.attack_type {
                let m = w.multiplier as i64;
                assert(damage * m <= 65535 * 255) by (nonlinear_arith)
                    requires
                        0 <= damage <= 65535,
                        0 <= m <= 255,
                ;
                damage = damage * m;
            }
        }
        if let Some(res) = p.resistance {
            if res.type_ == attack.attack_type {
                damage = if damage - (res.value as i64) > 0 {
                    damage - (res.value as i64)
                } else {
                    0
                };
            }
        }
    }
    if damage > 0 {
        damage
    } else {
        0
    }
}

/// How much the policy likes an attack against the defender: damage counts
/// most, energy cost counts against, an extra effect counts for, and knocking
/// the defender out outweighs everything.
pub open spec fn attack_score(a: AttackSpec, defender: Option<PokemonView>) -> int {
    let ed = expected_damage(a, defender);
    let base = ed * 100 - a.total_energy as int * 20 + if a.effect is Some {
        250int
    } else {
        0int
    };
    match defender {
        Some(p) => if ed >= remaining_hp(p) {
            base + 100000
        } else {
            base
        },
        None => base,
    }
}

pub fn attack_score_vs(attack: &Attack, defender: Option<&PokemonView>) -> (r: i64)
    ensures
        r == attack_score(attack@, match defender {
            Some(p) => Some(*p),
            None => None,
        }),
{
    let ed = expected_damage_vs(attack, defender);
    let cost = attack.cost.total_energy as i64;
    let effect_bonus: i64 = if attack.effect_ast.is_some() {
        250
    } else {
        0
    };
    let mut score = ed * 100 - cost * 20 + effect_bonus;
    if let Some(p) = defender {
        let remaining = remaining_hp_of(p) as i64;
        if ed >= remaining {
            score = score + 100000;
        }
    }
    score
}

/// `x` is strictly preferred to `y` against the defender: higher score; then
/// less damage; then less energy; then fewer typed requirements; then the greater name.
pub open spec fn gt_for_view(defender: Option<PokemonView>, x: AttackSpec, y: AttackSpec) -> bool {
    let sx = attack_score(x, defender);
    let sy = attack_score(y, defender);
    sx > sy || (sx == sy && (x.damage < y.damage || (x.damage == y.damage && (x.total_energy
        < y.total_energy || (x.total_energy == y.total_energy && (x.cost_types.len()
        < y.cost_types.len() || (x.cost_types.len() == y.cost_types.len() && seq_less(
        y.name,
        x.name,
    ))))))))
}

pub open spec fn pref_for_view(defender: Option<PokemonView>) -> spec_fn(AttackSpec, AttackSpec) -> bool {
    |x: AttackSpec, y: AttackSpec| gt_for_view(defender, x, y)
}

pub open spec fn best_for_view(views: Seq<AttackSpec>, defender: Option<PokemonView>) -> int {
    scan_best(views, pref_for_view(defender))
}

fn attack_gt_for_view(a: &Attack, b: &Attack, defender: Option<&PokemonView>) -> (r: bool)
    ensures
        r == gt_for_view(match defender {
            Some(p) => Some(*p),
            None => None,
        }, a@, b@),
{
    let sa = attack_score_vs(a, defender);
    let sb = attack_score_vs(b, defender);
    if sa != sb {
        return sa > sb;
    }
    if a.damage != b.damage {
        return a.damage < b.damage;
    }
    if a.cost.total_energy != b.cost.total_energy {
        return a.cost.total_energy < b.cost.total_energy;
    }
    if a.cost.types.len() != b.cost.types.len() {
        return a.cost.types.len() < b.cost.types.len();
    }
    str_less(b.name.as_str(), a.name.as_str())
}

/// Position of the attack the policy likes best against the opponent's Active Pokémon.
pub fn best_attack_for_view(view: &GameView, attacks: &[Attack]) -> (r: Option<usize>)
    ensures
        r is None <==> attacks@.len() == 0,
        r matches Some(i) ==> i < attacks@.len() && i == best_for_view(attack_views(attacks@), view.opponent_active),
{
    if attacks.len() == 0 {
        return None;
    }
    let defender = match &view.opponent_active {
        Some(p) => Some(p),
        None => None,
    };
    let ghost d = view.opponent_active;
    let ghost v = attack_views(attacks@);
    let mut best: usize = 0;
    let mut i: usize = 1;
    while i < attacks.len()
        invariant
            v == attack_views(attacks@),
            d == view.opponent_active,
            d == (match defender {
                Some(p) => Some(*p),
                None => None::<PokemonView>,
            }),
            1 <= i <= attacks.len(),
            best < i,
            best == scan_best(v.take(i as int), pref_for_view(d)),
        decreases attacks.len() - i,
    {
        proof {
            lemma_scan_best_step(v, pref_for_view(d), i as int);
        }
        if !attack_gt_for_view(&attacks[best], &attacks[i], defender) {
            best = i;
        }
        i = i + 1;
    }
    assert(v.take(attacks.len() as int) =~= v);
    Some(best)
}

/// The attack declared outside prompts: the best against the defender, else the dummy attack.
pub open spec fn attack_choice_for_view(view: GameView) -> AttackSpec {
    let usable = view.action_hints.usable_attacks@;
    if usable.len() > 0 {
        attack_views(usable)[best_for_view(attack_views(usable), view.opponent_active)]
    } else {
        dummy_attack_spec()
    }
}

/// Our Active Pokémon is in trouble: under a Special Condition, or below 45
/// per cent of its HP.
pub open spec fn active_unhealthy(view: GameView) -> bool {
    match view.my_active {
        Some(a) => a.special_conditions@.len() > 0 || (a.hp > 0 && 100 * remaining_hp(a) < 45 * a.hp as int),
        None => false,
    }
}

pub fn is_active_unhealthy(view: &GameView) -> (r: bool)
    ensures
        r == active_unhealthy(*view),
{
    match &view.my_active {
        Some(a) => {
            if a.special_conditions.len() > 0 {
                return true;
            }
            if a.hp == 0 {
                return false;
            }
            let remaining = remaining_hp_of(a) as i64;
            100 * remaining < 45 * (a.hp as i64)
        },
        None => false,
    }
}

/// HP left on our Pokémon `pid`; 0 when we have no such Pokémon.
pub open spec fn my_remaining(view: GameView, pid: CardInstanceId) -> int {
    match my_pokemon(view, pid) {
        Some(p) => remaining_hp(p),
        None => 0,
    }
}

fn my_remaining_of(view: &GameView, pid: CardInstanceId) -> (r: i32)
    ensures
        r == my_remaining(*view, pid),
        0 <= r <= 65535,
{
    match find_my_pokemon(view, pid) {
        Some(p) => remaining_hp_of(p),
        None => 0,
    }
}

/// `i` is the first candidate with the most energy, and among those the most HP left.
pub open spec fn is_first_best_replacement(view: GameView, pool: Seq<CardInstanceId>, i: int) -> bool {
    &&& 0 <= i < pool.len()
    &&& forall|j: int|
        0 <= j < pool.len() ==> my_energy_count(view, #[trigger] pool[j]) < my_energy_count(view, pool[i]) || (
        my_energy_count(view, pool[j]) == my_energy_count(view, pool[i]) && my_remaining(view, pool[j])
            <= my_remaining(view, pool[i]))
    &&& forall|j: int|
        0 <= j < i ==> my_energy_count(view, #[trigger] pool[j]) < my_energy_count(view, pool[i]) || (
        my_energy_count(view, pool[j]) == my_energy_count(view, pool[i]) && my_remaining(view, pool[j])
            < my_remaining(view, pool[i]))
}

/// The answers the third policy proposes to a prompt; like the second policy
/// except for attacks, target choices and replacements.
pub open spec fn prompt_response_v3_ok(view: GameView, prompt: Prompt, r: Seq<Action>) -> bool {
    match prompt {
        Prompt::ChooseAttack { attacks } => {
            let v = attack_views(attacks@);
            if v.len() == 0 {
                r.len() == 0
            } else {
                attacks_best_then_shuffled(v, best_for_view(v, view.opponent_active), r)
            }
        },
        Prompt::ChoosePokemonInPlay { player, options, min, max } => {
            let take = min3(min as int, max as int, options@.len() as int);
            if player != view.player_id {
                r == seq![Action::EndTurn]
            } else if take == 0 {
                r.len() == 1 && picked_by(Pick::PokemonTargets, r[0]) == Some(Seq::<CardInstanceId>::empty())
            } else if exists|i: int| 0 <= i < options@.len() && #[trigger] opponent_pokemon(view, options@[i]) is Some {
                r.len() == 1 && (picked_by(Pick::PokemonTargets, r[0]) matches Some(ids) && low_hp_pick_ok(view, options@, take, ids))
            } else {
                r.len() == 1 && (picked_by(Pick::PokemonTargets, r[0]) matches Some(ids) && low_energy_pick_ok(view, options@, take, ids))
            }
        },
        Prompt::ChooseNewActive { player, options } => {
            if player != view.player_id {
                r == seq![Action::EndTurn]
            } else {
                let pool = new_active_pool(view, options@);
                if pool.len() == 0 {
                    r.len() == 0
                } else {
                    exists|i: int| #[trigger] is_first_best_replacement(view, pool, i)
                        && ids_first_then_shuffled(Some(pool[i]), pool, false, r)
                }
            }
        },
        _ => prompt_response_v2_ok(view, prompt, r),
    }
}

/// Keys ordering the opponent's Pokémon by HP left.
pub open spec fn opponent_keys(view: GameView, options: Seq<CardInstanceId>) -> Seq<(u64, u64)> {
    Seq::new(options.len(), |i: int| (match opponent_pokemon(view, options[i]) {
        Some(p) => remaining_hp(p) as u64,
        None => 0u64,
    }, 0u64))
}

/// Which options are the opponent's Pokémon.
pub open spec fn opponent_found(view: GameView, options: Seq<CardInstanceId>) -> Seq<bool> {
    Seq::new(options.len(), |i: int| opponent_pokemon(view, options[i]) is Some)
}

/// `r` is the `take` of the opponent's Pokémon among the options with the
/// least HP left (ties in option order); a random pick when none of the
/// options is the opponent's.
pub open spec fn low_hp_pick_ok(view: GameView, options: Seq<CardInstanceId>, take: int, r: Seq<CardInstanceId>) -> bool {
    if forall|i: int| 0 <= i < options.len() ==> !(#[trigger] opponent_found(view, options)[i]) {
        is_random_pick(r, options, take)
    } else {
        exists|idx: Seq<usize>|
            #[trigger] is_greedy_min(opponent_keys(view, options), opponent_found(view, options), idx, take)
                && (forall|t: int| 0 <= t < idx.len() ==> idx[t] < options.len()) && r == idx.map_values(|i: usize| options[i as int])
    }
}

/// Every position is eligible.
pub open spec fn all_true(n: nat) -> Seq<bool> {
    Seq::new(n, |i: int| true)
}

/// Keys ordering our Pokémon by energy attached, then by most HP left.
pub open spec fn own_keys(view: GameView, options: Seq<CardInstanceId>) -> Seq<(u64, u64)> {
    Seq::new(options.len(), |i: int| (my_energy_count(view, options[i]) as u64, (65535 - my_remaining(view, options[i])) as u64))
}

/// `r` is the `take` of the options with the least energy attached, the most
/// HP left breaking ties, then option order.
pub open spec fn low_energy_pick_ok(view: GameView, options: Seq<CardInstanceId>, take: int, r: Seq<CardInstanceId>) -> bool {
    exists|idx: Seq<usize>|
        #[trigger] is_greedy_min(own_keys(view, options), all_true(options.len()), idx, take)
            && (forall|t: int| 0 <= t < idx.len() ==> idx[t] < options.len()) && r == idx.map_values(|i: usize| options[i as int])
}

/// The options at the given positions.
fn options_at(options: &[CardInstanceId], idx: &[usize]) -> (r: Vec<CardInstanceId>)
    requires
        forall|t: int| 0 <= t < idx@.len() ==> idx@[t] < options@.len(),
    ensures
        r@ == idx@.map_values(|i: usize| options@[i as int]),
{
    let mut out: Vec<CardInstanceId> = Vec::new();
    let mut u: usize = 0;
    while u < idx.len()
        invariant
            forall|t: int| 0 <= t < idx@.len() ==> idx@[t] < options@.len(),
            u <= idx.len(),
            out@ == idx@.take(u as int).map_values(|i: usize| options@[i as int]),
        decreases idx.len() - u,
    {
        out.push(options[idx[u]]);
        u = u + 1;
        assert(out@ =~= idx@.take(u as int).map_values(|i: usize| options@[i as int]));
    }
    assert(idx@.take(idx.len() as int) =~= idx@);
    out
}

/// Scores a candidate evolution: on the Active Pokémon first, then by energy attached and HP left.
pub open spec fn evolution_score(view: GameView, target: CardInstanceId) -> int {
    (if active_is(view, target) {
        200int
    } else {
        0int
    }) + my_energy_count(view, target) * 20 + my_remaining(view, target)
}

/// Our Active Pokémon is `pid`.
pub open spec fn active_is(view: GameView, pid: CardInstanceId) -> bool {
    match view.my_active {
        Some(a) => a.card.id == pid,
        None => false,
    }
}

/// The Pokémon a card of the hand may evolve, from the first entry listed for it.
pub open spec fn evolve_targets(h: ActionHints, card: CardInstanceId) -> Option<Seq<CardInstanceId>> {
    let entries = h.evolve_targets_by_card_id@;
    if exists|k: int| 0 <= k < entries.len() && entries[k].0 == card {
        let k = choose|k: int|
            0 <= k < entries.len() && entries[k].0 == card && forall|j: int| 0 <= j < k ==> entries[j].0 != card;
        Some(entries[k].1@)
    } else {
        None
    }
}

/// The (card, target) pairs of the first `n` playable evolution cards, card by card, targets in order.
pub open spec fn evolution_pairs(h: ActionHints, n: int) -> Seq<(CardInstanceId, CardInstanceId)>
    decreases n,
{
    if n <= 0 {
        Seq::empty()
    } else {
        let card = h.playable_evolution_ids@[n - 1];
        evolution_pairs(h, n - 1) + match evolve_targets(h, card) {
            Some(ts) => ts.map_values(|t: CardInstanceId| (card, t)),
            None => Seq::empty(),
        }
    }
}

/// A later pair replaces the best so far only when it scores strictly higher.
pub open spec fn pref_evolution(view: GameView) -> spec_fn((CardInstanceId, CardInstanceId), (CardInstanceId, CardInstanceId)) -> bool {
    |x: (CardInstanceId, CardInstanceId), y: (CardInstanceId, CardInstanceId)| evolution_score(view, y.1) <= evolution_score(view, x.1)
}

/// The evolution the policy plays: the first best-scoring (card, target) pair, if any.
pub open spec fn evolution_choice(view: GameView) -> Option<(CardInstanceId, CardInstanceId)> {
    let pairs = evolution_pairs(view.action_hints, view.action_hints.playable_evolution_ids@.len() as int);
    if pairs.len() == 0 {
        None
    } else {
        Some(pairs[scan_best(pairs, pref_evolution(view))])
    }
}

/// Every Pokémon of ours has few enough energy cards that evolution scores fit in 32 bits.
pub open spec fn energy_counts_fit(view: GameView) -> bool {
    &&& forall|pid: CardInstanceId| #[trigger] my_energy_count(view, pid) * 20 + 65735 <= i32::MAX
}

fn evolve_targets_of<'a>(h: &'a ActionHints, card: CardInstanceId) -> (r: Option<&'a Vec<CardInstanceId>>)
    ensures
        r is None <==> evolve_targets(*h, card) is None,
        r matches Some(ts) ==> evolve_targets(*h, card) == Some(ts@),
{
    let entries = &h.evolve_targets_by_card_id;
    let mut k: usize = 0;
    while k < entries.len()
        invariant
            k <= entries@.len(),
            entries == &h.evolve_targets_by_card_id,
            forall|j: int| 0 <= j < k ==> entries@[j].0 != card,
        decreases entries.len() - k,
    {
        if entries[k].0 == card {
            let ghost kk = k as int;
            assert(0 <= kk < entries@.len() && entries@[kk].0 == card && forall|j: int| 0 <= j < kk ==> entries@[j].0 != card);
            assert forall|m: int|
                0 <= m < entries@.len() && entries@[m].0 == card && (forall|j: int| 0 <= j < m ==> entries@[j].0 != card) implies m == kk by {
                if m < kk {
                } else if m > kk {
                    assert(entries@[kk].0 == card);
                }
            }
            return Some(&entries[k].1);
        }
        k = k + 1;
    }
    None
}

fn evolution_score_of(view: &GameView, target: CardInstanceId) -> (r: i64)
    requires
        energy_counts_fit(*view),
    ensures
        r == evolution_score(*view, target),
{
    let energy = attached_energy_count_on(view, target);
    assert(my_energy_count(*view, target) * 20 + 65735 <= i32::MAX);
    let remaining = my_remaining_of(view, target) as i64;
    let active_bonus: i64 = match &view.my_active {
        Some(a) => if a.card.id == target {
            200
        } else {
            0
        },
        None => 0,
    };
    active_bonus + (energy as i64) * 20 + remaining
}

/// `best` holds the best-scoring pair seen so far, with its score.
pub open spec fn best_so_far(
    view: GameView,
    seen: Seq<(CardInstanceId, CardInstanceId)>,
    best: Option<(i64, CardInstanceId, CardInstanceId)>,
) -> bool {
    &&& seen.len() == 0 <==> best is None
    &&& best matches Some((s, c, t)) ==> seen.len() > 0 && (c, t) == seen[scan_best(seen, pref_evolution(view))]
        && s == evolution_score(view, t)
}

/// Continues the scan for the best evolution over the targets of one card.
fn fold_evolution_targets(
    view: &GameView,
    card_id: CardInstanceId,
    targets: &[CardInstanceId],
    best: Option<(i64, CardInstanceId, CardInstanceId)>,
    Ghost(before): Ghost<Seq<(CardInstanceId, CardInstanceId)>>,
) -> (r: Option<(i64, CardInstanceId, CardInstanceId)>)
    requires
        energy_counts_fit(*view),
        best_so_far(*view, before, best),
    ensures
        best_so_far(*view, before + targets@.map_values(|t: CardInstanceId| (card_id, t)), r),
{
    let mut best = best;
    let ghost mut seen = before;
    let mut ti: usize = 0;
    while ti < targets.len()
        invariant
            energy_counts_fit(*view),
            ti <= targets@.len(),
            seen == before + targets@.take(ti as int).map_values(|t: CardInstanceId| (card_id, t)),
            best_so_far(*view, seen, best),
        decreases targets.len() - ti,
    {
        let target_id = targets[ti];
        let score = evolution_score_of(view, target_id);
        let ghost old_seen = seen;
        proof {
            seen = seen.push((card_id, target_id));
            assert(seen =~= before + targets@.take(ti + 1).map_values(|t: CardInstanceId| (card_id, t)));
        }
        match best {
            None => {
                best = Some((score, card_id, target_id));
                assert(seen =~= seq![(card_id, target_id)]);
            },
            Some((best_score, bc, bt)) => {
                proof {
                    lemma_scan_best_push(old_seen, (card_id, target_id), pref_evolution(*view));
                }
                if score > best_score {
                    best = Some((score, card_id, target_id));
                }
            },
        }
        ti = ti + 1;
    }
    assert(targets@.take(targets@.len() as int) =~= targets@);
    best
}

/// Benching a basic Pokémon from the hand.
pub open spec fn basic_play_ok(view: GameView, a: Action) -> bool {
    a matches Action::PlayBasic { card_id } && view.action_hints.playable_basic_ids@.contains(card_id)
}

/// Playing a trainer card from the hand.
pub open spec fn trainer_play_ok(view: GameView, a: Action) -> bool {
    a matches Action::PlayTrainer { card_id } && view.action_hints.playable_trainer_ids@.contains(card_id)
}

/// Attaching a playable energy card where the third policy wants it: with an
/// attack ready, to the bench first (the most charged one when the Active
/// Pokémon is in trouble, else the least); otherwise to the Active Pokémon first.
pub open spec fn energy_attach_ok(view: GameView, a: Action) -> bool {
    let h = view.action_hints;
    let can_attack_now = h.can_declare_attack && h.usable_attacks@.len() > 0;
    a matches Action::AttachEnergy { energy_id, target_id } && h.playable_energy_ids@.contains(energy_id)
        && attach_target_ok(
        view,
        h.attach_targets@,
        can_attack_now,
        if can_attack_now {
            active_unhealthy(view)
        } else {
            true
        },
        Some(target_id),
    )
}

/// From position `start` on, `r` holds: an energy attachment whenever one is
/// possible, at most one basic Pokémon (before the attachment when
/// `basic_first`), the attack chosen against the defender whenever one can be
/// declared, and the end of the turn, nothing after it.
pub open spec fn turn_steps_ok(view: GameView, r: Seq<Action>, start: int, basic_first: bool) -> bool {
    let h = view.action_hints;
    let ne: int = if h.playable_energy_ids@.len() > 0 && h.attach_targets@.len() > 0 {
        1
    } else {
        0
    };
    let na: int = if h.usable_attacks@.len() > 0 || h.can_declare_attack {
        1
    } else {
        0
    };
    let nb: int = r.len() - start - ne - na - 1;
    let basic_at = if basic_first {
        start
    } else {
        start + ne
    };
    let attach_at = if basic_first {
        start + nb
    } else {
        start
    };
    &&& nb == 0 || nb == 1
    &&& nb == 1 ==> basic_play_ok(view, r[basic_at])
    &&& ne == 1 ==> energy_attach_ok(view, r[attach_at])
    &&& h.playable_basic_ids@.len() > 0 && view.my_bench@.len() < 3 ==> nb == 1
    &&& view.my_bench@.len() >= 5 ==> nb == 0
    &&& na == 1 ==> declared(r[start + ne + nb]) == Some(attack_choice_for_view(view))
    &&& r[start + ne + nb + na] == Action::EndTurn
}

/// The third policy's plan for its own turn: the best evolution if one is
/// playable, then a trainer card, then the usual steps; else a trainer card
/// and the usual steps; else the usual steps, benching before attaching when
/// an attack is ready. Nothing while it is not our turn or a prompt is open.
pub open spec fn free_actions_v3_ok(view: GameView, r: Seq<Action>) -> bool {
    let h = view.action_hints;
    let nt: int = if h.playable_trainer_ids@.len() > 0 {
        1
    } else {
        0
    };
    if view.current_player != view.player_id || view.pending_prompt is Some {
        r.len() == 0
    } else {
        match evolution_choice(view) {
            Some((c, t)) => {
                &&& r.len() > 0
                &&& r[0] == Action::EvolveFromHand { card_id: c, target_id: t }
                &&& nt == 1 ==> trainer_play_ok(view, r[1])
                &&& turn_steps_ok(view, r, 1 + nt, false)
            },
            None => if nt == 1 {
                &&& r.len() > 0
                &&& trainer_play_ok(view, r[0])
                &&& turn_steps_ok(view, r, 1, false)
            } else {
                turn_steps_ok(view, r, 0, h.can_declare_attack && h.usable_attacks@.len() > 0)
            },
        }
    }
}

/// A choice of Pokémon in play for this player that the third policy makes
/// without drawing: there is nothing to take, or some option is a Pokémon of
/// the opponent, and those are picked by HP left.
pub open spec fn targets_without_drawing(view: GameView, prompt: Prompt) -> bool {
    &&& prompt matches Prompt::ChoosePokemonInPlay { player, options, min, max }
    &&& player == view.player_id
    &&& (min3(min as int, max as int, options@.len() as int) == 0 || exists|j: int|
        0 <= j < options@.len() && #[trigger] opponent_pokemon(view, options@[j]) is Some)
}

pub struct RandomAiV3 {
    rng: ChaCha8Rng,
}

impl RandomAiV3 {
    /// The generator the policy draws from.
    pub closed spec fn generator(self) -> ChaCha8Rng {
        self.rng
    }

    /// A policy whose generator is seeded from `seed`.
    pub fn new(seed: u64) -> (r: RandomAiV3)
        ensures
            r.generator() == seeded_state(seed),
    {
        RandomAiV3 { rng: seeded_rng(seed) }
    }

    /// The best evolution to play, by the score above.
    pub fn choose_evolution_action(&mut self, view: &GameView) -> (r: Option<Action>)
        requires
            energy_counts_fit(*view),
        ensures
            match evolution_choice(*view) {
                Some((c, t)) => r == Some(Action::EvolveFromHand { card_id: c, target_id: t }),
                None => r is None,
            },
            *final(self) == *old(self),
    {
        let h = &view.action_hints;
        let cards = &h.playable_evolution_ids;
        let mut best: Option<(i64, CardInstanceId, CardInstanceId)> = None;
        let ghost mut seen: Seq<(CardInstanceId, CardInstanceId)> = Seq::empty();
        let mut ci: usize = 0;
        while ci < cards.len()
            invariant
                cards == &h.playable_evolution_ids,
                h == &view.action_hints,
                energy_counts_fit(*view),
                ci <= cards@.len(),
                seen == evolution_pairs(*h, ci as int),
                best_so_far(*view, seen, best),
            decreases cards.len() - ci,
        {
            let card_id = cards[ci];
            let ghost before = seen;
            match evolve_targets_of(h, card_id) {
                None => {
                    assert(evolution_pairs(*h, ci + 1) =~= before);
                },
                Some(targets) => {
                    best = fold_evolution_targets(view, card_id, targets.as_slice(), best, Ghost(before));
                    proof {
                        seen = before + targets@.map_values(|t: CardInstanceId| (card_id, t));
                    }
                    assert(evolution_pairs(*h, ci + 1) == seen);
                },
            }
            ci = ci + 1;
        }
        assert(cards@.len() == h.playable_evolution_ids@.len());
        match best {
            Some((_, card_id, target_id)) => Some(Action::EvolveFromHand { card_id, target_id }),
            None => None,
        }
    }

    /// A random trainer card to play.
    pub fn choose_trainer_action(&mut self, view: &GameView) -> (r: Option<Action>)
        ensures
            r is None <==> view.action_hints.playable_trainer_ids@.len() == 0,
            r matches Some(a) ==> (a matches Action::PlayTrainer { card_id } && view.action_hints.playable_trainer_ids@.contains(card_id)),
    {
        match choose_one(&mut self.rng, view.action_hints.playable_trainer_ids.as_slice()) {
            Some(card_id) => Some(Action::PlayTrainer { card_id }),
            None => None,
        }
    }

    /// A random basic Pokémon to bench.
    pub fn choose_basic_action(&mut self, view: &GameView) -> (r: Option<Action>)
        ensures
            r is None <==> view.action_hints.playable_basic_ids@.len() == 0,
            r matches Some(a) ==> (a matches Action::PlayBasic { card_id } && view.action_hints.playable_basic_ids@.contains(card_id)),
    {
        match choose_one(&mut self.rng, view.action_hints.playable_basic_ids.as_slice()) {
            Some(card_id) => Some(Action::PlayBasic { card_id }),
            None => None,
        }
    }

    /// The replacement with the most energy, then the most HP left; the first such.
    pub fn choose_new_active_best(&mut self, view: &GameView, options: &[CardInstanceId]) -> (r: Option<CardInstanceId>)
        ensures
            new_active_pool(*view, options@).len() == 0 <==> r is None,
            r matches Some(t) ==> exists|i: int| #[trigger] is_first_best_replacement(*view, new_active_pool(*view, options@), i)
                && new_active_pool(*view, options@)[i] == t,
            *final(self) == *old(self),
    {
        let candidates = if options.len() > 0 {
            copy_ids(options)
        } else {
            ids_of_pokemon(view.my_bench.as_slice())
        };
        let ghost pool = candidates@;
        assert(pool == new_active_pool(*view, options@));
        if candidates.len() == 0 {
            return None;
        }
        let mut best: usize = 0;
        let mut best_e = attached_energy_count_on(view, candidates[0]);
        let mut best_h = my_remaining_of(view, candidates[0]);
        let mut i: usize = 1;
        while i < candidates.len()
            invariant
                pool == candidates@,
                1 <= i <= pool.len(),
                best < i,
                best_e == my_energy_count(*view, pool[best as int]),
                best_h == my_remaining(*view, pool[best as int]),
                forall|j: int| 0 <= j < i ==> my_energy_count(*view, pool[j]) < best_e || (my_energy_count(*view, pool[j]) == best_e
                    && my_remaining(*view, pool[j]) <= best_h),
                forall|j: int| 0 <= j < best ==> my_energy_count(*view, pool[j]) < best_e || (my_energy_count(*view, pool[j]) == best_e
                    && my_remaining(*view, pool[j]) < best_h),
            decreases pool.len() - i,
        {
            let e = attached_energy_count_on(view, candidates[i]);
            let h = my_remaining_of(view, candidates[i]);
            if e > best_e || (e == best_e && h > best_h) {
                best = i;
                best_e = e;
                best_h = h;
            }
            i = i + 1;
        }
        assert(is_first_best_replacement(*view, pool, best as int));
        assert(pool[best as int] == candidates@[best as int]);
        Some(candidates[best])
    }

    /// The `take` Pokémon of the opponent among the options with the least HP left.
    pub fn pick_opponent_targets_low_hp(&mut self, view: &GameView, options: &[CardInstanceId], take: usize) -> (r: Vec<CardInstanceId>)
        ensures
            low_hp_pick_ok(*view, options@, take as int, r@),
            (exists|j: int| 0 <= j < options@.len() && #[trigger] opponent_pokemon(*view, options@[j]) is Some)
                ==> *final(self) == *old(self),
    {
        let mut keys: Vec<(u64, u64)> = Vec::new();
        let mut found: Vec<bool> = Vec::new();
        let mut any = false;
        let mut i: usize = 0;
        while i < options.len()
            invariant
                i <= options@.len(),
                keys@ == opponent_keys(*view, options@).take(i as int),
                found@ == opponent_found(*view, options@).take(i as int),
                any <==> exists|j: int| 0 <= j < i && #[trigger] opponent_found(*view, options@)[j],
            decreases options.len() - i,
        {
            match find_opponent_pokemon(view, options[i]) {
                Some(p) => {
                    keys.push((remaining_hp_of(p) as u64, 0));
                    found.push(true);
                    any = true;
                    assert(opponent_found(*view, options@)[i as int]);
                },
                None => {
                    keys.push((0, 0));
                    found.push(false);
                },
            }
            assert(keys@ =~= opponent_keys(*view, options@).take(i + 1));
            assert(found@ =~= opponent_found(*view, options@).take(i + 1));
            i = i + 1;
        }
        assert(keys@ =~= opponent_keys(*view, options@));
        assert(found@ =~= opponent_found(*view, options@));
        if !any {
            assert forall|j: int| 0 <= j < options@.len() implies !(#[trigger] opponent_pokemon(*view, options@[j]) is Some) by {
                assert(opponent_found(*view, options@)[j] == (opponent_pokemon(*view, options@[j]) is Some));
            }
            return choose_k(&mut self.rng, options, take);
        }
        let idx = greedy_min_order(keys.as_slice(), found.as_slice(), take);
        let r = options_at(options, idx.as_slice());
        assert(is_greedy_min(opponent_keys(*view, options@), opponent_found(*view, options@), idx@, take as int));
        r
    }

    /// The `take` of our Pokémon among the options with the least energy attached.
    pub fn pick_own_targets_low_energy(&mut self, view: &GameView, options: &[CardInstanceId], take: usize) -> (r: Vec<CardInstanceId>)
        ensures
            low_energy_pick_ok(*view, options@, take as int, r@),
            *final(self) == *old(self),
    {
        let mut keys: Vec<(u64, u64)> = Vec::new();
        let mut all: Vec<bool> = Vec::new();
        let mut i: usize = 0;
        while i < options.len()
            invariant
                i <= options@.len(),
                keys@ == own_keys(*view, options@).take(i as int),
                all@ == all_true(options@.len()).take(i as int),
            decreases options.len() - i,
        {
            let energy = attached_energy_count_on(view, options[i]);
            let remaining = my_remaining_of(view, options[i]);
            keys.push((energy as u64, (65535 - remaining) as u64));
            all.push(true);
            assert(keys@ =~= own_keys(*view, options@).take(i + 1));
            assert(all@ =~= all_true(options@.len()).take(i + 1));
            i = i + 1;
        }
        assert(keys@ =~= own_keys(*view, options@));
        assert(all@ =~= all_true(options@.len()));
        let idx = greedy_min_order(keys.as_slice(), all.as_slice(), take);
        let r = options_at(options, idx.as_slice());
        assert(is_greedy_min(own_keys(*view, options@), all_true(options@.len()), idx@, take as int));
        r
    }

    /// Appends the usual steps of a turn: a basic Pokémon (before or after the
    /// energy, as `basic_first` says) when `want_basic`, an energy attachment,
    /// the attack, and the end of the turn.
    fn finish_turn(&mut self, view: &GameView, actions: &mut Vec<Action>, want_basic: bool, basic_first: bool)
        requires
            want_basic ==> view.action_hints.playable_basic_ids@.len() > 0,
            view.action_hints.playable_basic_ids@.len() > 0 && view.my_bench@.len() < 3 ==> want_basic,
            view.my_bench@.len() >= 5 ==> !want_basic,
        ensures
            final(actions)@.len() > old(actions)@.len(),
            final(actions)@.take(old(actions)@.len() as int) == old(actions)@,
            turn_steps_ok(*view, final(actions)@, old(actions)@.len() as int, basic_first),
    {
        let ghost start = actions@.len() as int;
        let ghost before = actions@;
        let hints = &view.action_hints;
        let can_attack_now = hints.can_declare_attack && hints.usable_attacks.len() > 0;
        let can_attach = hints.playable_energy_ids.len() > 0 && hints.attach_targets.len() > 0;
        if basic_first && want_basic {
            if let Some(a) = self.choose_basic_action(view) {
                actions.push(a);
            }
        }
        if can_attach {
            let prefers_max = if can_attack_now {
                is_active_unhealthy(view)
            } else {
                true
            };
            if let Some(target_id) = choose_attach_target(
                &mut self.rng,
                view,
                hints.attach_targets.as_slice(),
                can_attack_now,
                prefers_max,
            ) {
                if let Some(energy_id) = choose_one(&mut self.rng, hints.playable_energy_ids.as_slice()) {
                    actions.push(Action::AttachEnergy { energy_id, target_id });
                }
            }
        }
        if !basic_first && want_basic {
            if let Some(a) = self.choose_basic_action(view) {
                actions.push(a);
            }
        }
        match best_attack_for_view(view, hints.usable_attacks.as_slice()) {
            Some(b) => {
                actions.push(Action::DeclareAttack { attack: copy_attack(&hints.usable_attacks[b]) });
            },
            None => {
                if hints.can_declare_attack {
                    actions.push(Action::DeclareAttack { attack: dummy_attack() });
                }
            },
        }
        actions.push(Action::EndTurn);
        assert(actions@.take(start) =~= before);
    }

    /// The actions to take on our own turn, in order.
    pub fn propose_free_actions(&mut self, view: &GameView) -> (r: Vec<Action>)
        requires
            energy_counts_fit(*view),
        ensures
            free_actions_v3_ok(*view, r@),
            view.current_player != view.player_id || view.pending_prompt is Some ==> *final(self) == *old(self),
    {
        let mut actions: Vec<Action> = Vec::new();
        if view.current_player != view.player_id {
            return actions;
        }
        if view.pending_prompt.is_some() {
            return actions;
        }
        let hints = &view.action_hints;
        let can_attack_now = hints.can_declare_attack && hints.usable_attacks.len() > 0;
        let can_play_basic = hints.playable_basic_ids.len() > 0;
        let want_play_basic = can_play_basic && should_play_basic_now(&mut self.rng, view, 1, 4);
        let can_play_trainer = hints.playable_trainer_ids.len() > 0;
        let can_evolve = hints.playable_evolution_ids.len() > 0;
        if can_evolve {
            if let Some(evolve) = self.choose_evolution_action(view) {
                actions.push(evolve);
                if can_play_trainer {
                    if let Some(a) = self.choose_trainer_action(view) {
                        actions.push(a);
                    }
                }
                let ghost mid = actions@;
                self.finish_turn(view, &mut actions, want_play_basic, false);
                assert(actions@[0] == mid[0]);
                assert(can_play_trainer ==> actions@[1] == mid[1]);
                return actions;
            }
        } else {
            assert(evolution_pairs(view.action_hints, 0) =~= Seq::empty());
        }
        if can_play_trainer {
            if let Some(a) = self.choose_trainer_action(view) {
                actions.push(a);
                let ghost mid = actions@;
                self.finish_turn(view, &mut actions, want_play_basic, false);
                assert(actions@[0] == mid[0]);
                return actions;
            }
        }
        self.finish_turn(view, &mut actions, want_play_basic, can_attack_now);
        actions
    }

    /// The candidate answers to `prompt`, in the order to try them.
    pub fn propose_prompt_response(&mut self, view: &GameView, prompt: &Prompt) -> (r: Vec<Action>)
        requires
            prompt_v2_answerable(*view, *prompt),
        ensures
            prompt_response_v3_ok(*view, *prompt, r@),
            answered_without_drawing(*view, *prompt) || targets_without_drawing(*view, *prompt) ==> *final(self)
                == *old(self),
    {
        match prompt {
            Prompt::ChooseAttack { attacks } => {
                match best_attack_for_view(view, attacks.as_slice()) {
                    Some(b) => declare_best_then_shuffled(&mut self.rng, attacks.as_slice(), b),
                    None => Vec::new(),
                }
            },
            Prompt::ChoosePokemonInPlay { player, options, min, max } => {
                if *player != view.player_id {
                    return end_turn_only();
                }
                let take = min_usize(min_usize(*min, *max), options.len());
                let mut actions: Vec<Action> = Vec::new();
                if take == 0 {
                    actions.push(Action::ChoosePokemonTargets { target_ids: Vec::new() });
                    return actions;
                }
                let mut any_opponent = false;
                let mut i: usize = 0;
                while i < options.len()
                    invariant
                        i <= options@.len(),
                        any_opponent <==> exists|j: int| 0 <= j < i && #[trigger] opponent_pokemon(*view, options@[j]) is Some,
                    decreases options.len() - i,
                {
                    if find_opponent_pokemon(view, options[i]).is_some() {
                        any_opponent = true;
                    }
                    i = i + 1;
                }
                let picked = if any_opponent {
                    self.pick_opponent_targets_low_hp(view, options.as_slice(), take)
                } else {
                    self.pick_own_targets_low_energy(view, options.as_slice(), take)
                };
                actions.push(Action::ChoosePokemonTargets { target_ids: picked });
                actions
            },
            Prompt::ChooseNewActive { player, options } => {
                if *player != view.player_id {
                    return end_turn_only();
                }
                let best = self.choose_new_active_best(view, options.as_slice());
                let candidates = if options.len() == 0 {
                    ids_of_pokemon(view.my_bench.as_slice())
                } else {
                    copy_ids(options.as_slice())
                };
                ids_then_shuffled(&mut self.rng, best, candidates.as_slice(), false)
            },
            _ => answer_prompt(&mut self.rng, view, prompt),
        }
    }
}

} // verus!
