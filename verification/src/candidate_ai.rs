//! A candidate policy that weighs its choices: it scores the Pokémon it might
//! start with, promote or power up, and picks among them at random with
//! weights that favour the best scores, so that near-best moves are tried too.
use crate::ai_common::{find_slot, find_slot_index, ids_of_pokemon};
use crate::candidates::declared;
use crate::model::{
    Action, Attack, AttackSpec, CardInstanceId, CardView, GameView, PokemonView, Prompt,
    attack_views, copy_attack, copy_ids,
};
use crate::random_ai::{best_attack_index, best_damage_then_cheap, end_turn_only, new_active_pool};
use crate::rng::{choose_copied, seeded_rng, seeded_state};
use rand_chacha::ChaCha8Rng;
use vstd::prelude::*;

verus! {

/// HP left after the damage counters, 10 HP each; negative when they exceed the HP.
pub open spec fn hp_after_damage(hp: u16, damage_counters: u16) -> int {
    hp as int - 10 * damage_counters as int
}

pub fn remaining_hp(hp: u16, damage_counters: u16) -> (r: i64)
    ensures
        r == hp_after_damage(hp, damage_counters),
{
    let damage = (damage_counters as i64) * 10;
    (hp as i64) - damage
}

pub fn attack_energy_cost(attack: &Attack) -> (r: i64)
    ensures
        r == attack@.total_energy,
{
    attack.cost.total_energy as i64
}

/// What an attack is worth to a Pokémon that may start or come forward:
/// twice its damage, less three per energy it costs, and 15 more when the
/// energy already attached pays for it.
pub open spec fn starter_attack_value(a: AttackSpec, energy: int) -> int {
    2 * a.damage as int - 3 * a.total_energy as int + if energy >= a.total_energy as int {
        15int
    } else {
        0int
    }
}

/// The best of those values over the attacks, and 0 when none is positive.
pub open spec fn best_starter_value(attacks: Seq<AttackSpec>, energy: int) -> int
    decreases attacks.len(),
{
    if attacks.len() == 0 {
        0
    } else {
        let b = best_starter_value(attacks.drop_last(), energy);
        let s = starter_attack_value(attacks.last(), energy);
        if s > b {
            s
        } else {
            b
        }
    }
}

/// A Pokémon's worth as the Active Pokémon: its HP left plus its best attack value.
pub open spec fn starter_value(hp: u16, damage_counters: u16, energy: int, attacks: Seq<AttackSpec>) -> int {
    hp_after_damage(hp, damage_counters) + best_starter_value(attacks, energy)
}

pub fn score_starter(hp: u16, damage_counters: u16, energy_count: usize, attacks: &[Attack]) -> (r: i64)
    ensures
        r == starter_value(hp, damage_counters, energy_count as int, attack_views(attacks@)),
        -655350 <= r <= 196620,
{
    let remaining = remaining_hp(hp, damage_counters);
    let ghost v = attack_views(attacks@);
    let mut best: i64 = 0;
    let mut i: usize = 0;
    while i < attacks.len()
        invariant
            i <= attacks@.len(),
            v == attack_views(attacks@),
            best == best_starter_value(v.take(i as int), energy_count as int),
            0 <= best <= 131085,
        decreases attacks.len() - i,
    {
        let cost = attack_energy_cost(&attacks[i]);
        let damage = attacks[i].damage as i64;
        let can_use = energy_count >= attacks[i].cost.total_energy as usize;
        let bonus: i64 = if can_use {
            15
        } else {
            0
        };
        let score = damage * 2 - cost * 3 + bonus;
        assert(v.take(i + 1).drop_last() =~= v.take(i as int));
        assert(v.take(i + 1).last() == v[i as int]);
        if score > best {
            best = score;
        }
        i = i + 1;
    }
    assert(v.take(attacks.len() as int) =~= v);
    remaining + best
}

/// What an attack is worth when choosing where energy goes: twice its damage,
/// less six per energy still missing and two per energy it costs.
pub open spec fn energy_attack_value(a: AttackSpec, target_energy: int) -> int {
    let cost = a.total_energy as int;
    let missing = if cost > target_energy {
        cost - target_energy
    } else {
        0
    };
    2 * a.damage as int - 6 * missing - 2 * cost
}

/// The best of those values over the attacks, and 0 when none is positive.
pub open spec fn best_energy_value(attacks: Seq<AttackSpec>, target_energy: int) -> int
    decreases attacks.len(),
{
    if attacks.len() == 0 {
        0
    } else {
        let b = best_energy_value(attacks.drop_last(), target_energy);
        let s = energy_attack_value(attacks.last(), target_energy);
        if s > b {
            s
        } else {
            b
        }
    }
}

/// A target's worth for an energy card: its best attack value, and 25 more
/// when it is the Active Pokémon.
pub open spec fn energy_target_value(
    active_id: CardInstanceId,
    target_id: CardInstanceId,
    attacks: Seq<AttackSpec>,
    target_energy: int,
) -> int {
    best_energy_value(attacks, target_energy) + if target_id == active_id {
        25int
    } else {
        0int
    }
}

pub fn score_energy_target(
    active_id: CardInstanceId,
    target_id: CardInstanceId,
    attack_costs: &[Attack],
    target_energy: usize,
) -> (r: i64)
    ensures
        r == energy_target_value(active_id, target_id, attack_views(attack_costs@), target_energy as int),
        0 <= r <= 131095,
{
    let ghost v = attack_views(attack_costs@);
    let mut best: i64 = 0;
    let mut i: usize = 0;
    while i < attack_costs.len()
        invariant
            i <= attack_costs@.len(),
            v == attack_views(attack_costs@),
            best == best_energy_value(v.take(i as int), target_energy as int),
            0 <= best <= 131070,
        decreases attack_costs.len() - i,
    {
        let cost = attack_energy_cost(&attack_costs[i]);
        let damage = attack_costs[i].damage as i64;
        let cost_count = attack_costs[i].cost.total_energy as usize;
        let missing: i64 = if cost_count > target_energy {
            (cost_count - target_energy) as i64
        } else {
            0
        };
        let score = damage * 2 - missing * 6 - cost * 2;
        assert(v.take(i + 1).drop_last() =~= v.take(i as int));
        assert(v.take(i + 1).last() == v[i as int]);
        if score > best {
            best = score;
        }
        i = i + 1;
    }
    assert(v.take(attack_costs.len() as int) =~= v);
    let active_bonus: i64 = if target_id == active_id {
        25
    } else {
        0
    };
    best + active_bonus
}

/// The pool a weighted pick draws from: each card as many times as its
/// weight, none for a weight below 1, in the order given.
pub open spec fn weighted_pool(ids: Seq<(CardInstanceId, i64)>) -> Seq<CardInstanceId>
    decreases ids.len(),
{
    if ids.len() == 0 {
        Seq::empty()
    } else {
        let (id, w) = ids.last();
        weighted_pool(ids.drop_last()) + Seq::new(
            if w > 0 {
                w as nat
            } else {
                0nat
            },
            |k: int| id,
        )
    }
}

/// `p` is, among the positions not yet chosen, the earliest of highest score.
pub open spec fn is_first_max_unchosen(scores: Seq<i128>, chosen: Seq<usize>, p: usize) -> bool {
    &&& p < scores.len()
    &&& !chosen.contains(p)
    &&& forall|q: int|
        0 <= q < scores.len() && !chosen.contains(q as usize) ==> scores[q] <= scores[p as int] && (scores[q]
            == scores[p as int] ==> p <= q)
}

/// `idx` lists `take` positions (all of them, when there are fewer) by
/// decreasing score, ties in the order given: the first positions of a
/// stable sort from the highest score down.
pub open spec fn is_desc_order(scores: Seq<i128>, idx: Seq<usize>, take: int) -> bool {
    &&& idx.len() <= take
    &&& forall|t: int| 0 <= t < idx.len() ==> is_first_max_unchosen(scores, idx.take(t), #[trigger] idx[t])
    &&& idx.len() < take ==> forall|q: int| 0 <= q < scores.len() ==> #[trigger] idx.contains(q as usize)
}

/// The positions of the `take` highest scores, highest first, ties in order.
pub fn desc_order(scores: &[i128], take: usize) -> (r: Vec<usize>)
    ensures
        is_desc_order(scores@, r@, take as int),
        forall|t: int| 0 <= t < r@.len() ==> r@[t] < scores@.len(),
{
    let n = scores.len();
    let mut chosen: Vec<bool> = Vec::new();
    let mut k: usize = 0;
    while k < n
        invariant
            k <= n,
            chosen@.len() == k,
            forall|q: int| 0 <= q < k ==> !chosen@[q],
        decreases n - k,
    {
        chosen.push(false);
        k = k + 1;
    }
    let mut idx: Vec<usize> = Vec::new();
    while idx.len() < take
        invariant
            n == scores@.len(),
            chosen@.len() == n,
            idx@.len() <= take,
            forall|q: int| 0 <= q < n ==> (chosen@[q] <==> idx@.contains(q as usize)),
            forall|q: int| 0 <= q < idx@.len() ==> idx@[q] < n,
            forall|t: int| 0 <= t < idx@.len() ==> is_first_max_unchosen(scores@, idx@.take(t), #[trigger] idx@[t]),
        ensures
            idx@.len() <= take,
            forall|q: int| 0 <= q < idx@.len() ==> idx@[q] < n,
            forall|t: int| 0 <= t < idx@.len() ==> is_first_max_unchosen(scores@, idx@.take(t), #[trigger] idx@[t]),
            idx@.len() < take ==> forall|q: int| 0 <= q < scores@.len() ==> #[trigger] idx@.contains(q as usize),
        decreases take - idx@.len(),
    {
        let mut best: usize = n;
        let mut p: usize = 0;
        while p < n
            invariant
                n == scores@.len(),
                chosen@.len() == n,
                p <= n,
                best == n || (best < p && !chosen@[best as int]),
                best == n ==> forall|q: int| 0 <= q < p ==> chosen@[q],
                best < n ==> forall|q: int|
                    0 <= q < p && !chosen@[q] ==> scores@[q] <= scores@[best as int] && (scores@[q]
                        == scores@[best as int] ==> best <= q),
            decreases n - p,
        {
            if !chosen[p] {
                if best == n || scores[p] > scores[best] {
                    best = p;
                }
            }
            p = p + 1;
        }
        if best == n {
            assert forall|q: int| 0 <= q < n implies #[trigger] idx@.contains(q as usize) by {
                assert(chosen@[q]);
            }
            break;
        }
        let ghost prev = idx@;
        assert(is_first_max_unchosen(scores@, prev, best));
        idx.push(best);
        chosen.set(best, true);
        assert(idx@.take(prev.len() as int) =~= prev);
        assert forall|u: int| 0 <= u < idx@.len() implies is_first_max_unchosen(scores@, idx@.take(u), #[trigger] idx@[u]) by {
            if u < prev.len() {
                assert(idx@.take(u) =~= prev.take(u));
            }
        }
        assert forall|q: int| 0 <= q < n implies (chosen@[q] <==> idx@.contains(q as usize)) by {
            if q == best as int {
                assert(idx@[prev.len() as int] == best);
            } else {
                if prev.contains(q as usize) {
                    let w = choose|w: int| 0 <= w < prev.len() && prev[w] == q as usize;
                    assert(idx@[w] == q as usize);
                }
                if idx@.contains(q as usize) {
                    let w = choose|w: int| 0 <= w < idx@.len() && idx@[w] == q as usize;
                    assert(w < prev.len());
                    assert(prev[w] == q as usize);
                }
            }
        }
    }
    idx
}

/// The scores of the scored cards.
pub open spec fn scores_of(scored: Seq<(CardInstanceId, i64)>) -> Seq<i128> {
    scored.map_values(|e: (CardInstanceId, i64)| e.1 as i128)
}

/// The scores stay within a range that keeps the weight arithmetic exact.
pub open spec fn scores_bounded(scored: Seq<(CardInstanceId, i64)>) -> bool {
    forall|i: int| 0 <= i < scored.len() ==> -1_000_000 <= #[trigger] scored[i].1 <= 1_000_000
}

/// The weights of a pick among the scored cards, taken in the order `order`
/// (highest score first): `cap` less the gap to the top score, at least 1.
pub open spec fn gap_weights(scored: Seq<(CardInstanceId, i64)>, order: Seq<usize>, cap: int) -> Seq<(CardInstanceId, i64)> {
    let top = scored[order[0] as int].1 as int;
    order.map_values(
        |i: usize|
            {
                let w = cap - (top - scored[i as int].1 as int);
                (scored[i as int].0, (if w > 1 {
                    w
                } else {
                    1
                }) as i64)
            },
    )
}

/// `r` is a weighted random pick among the scored cards: sorted by score, the
/// highest first, each card weighs `cap` less its gap to the top score (at
/// least 1), and `r` is one of the pool drawn from.
pub open spec fn weighted_pick_ok(scored: Seq<(CardInstanceId, i64)>, cap: int, r: Option<CardInstanceId>) -> bool {
    exists|order: Seq<usize>|
        #[trigger] is_desc_order(scores_of(scored), order, scored.len() as int)
            && (forall|t: int| 0 <= t < order.len() ==> order[t] < scored.len()) && (r matches Some(x)
            && weighted_pool(gap_weights(scored, order, cap)).contains(x))
}

/// The options found on our bench, each with its worth as the Active Pokémon, in option order.
pub open spec fn starter_scored(view: GameView, options: Seq<CardInstanceId>) -> Seq<(CardInstanceId, i64)>
    decreases options.len(),
{
    if options.len() == 0 {
        Seq::empty()
    } else {
        let rest = starter_scored(view, options.drop_last());
        let id = options.last();
        match find_slot(view.my_bench@, id) {
            Some(p) => rest.push(
                (id, starter_value(p.hp, p.damage_counters, p.attached_energy@.len() as int, attack_views(p.attacks@)) as i64),
            ),
            None => rest,
        }
    }
}

/// `r` is a weighted pick among the options found on our bench, scored by
/// their worth as the Active Pokémon; the first option when none is found.
pub open spec fn starter_pick_ok(view: GameView, options: Seq<CardInstanceId>, cap: int, r: Option<CardInstanceId>) -> bool {
    let scored = starter_scored(view, options);
    if scored.len() == 0 {
        r == (if options.len() > 0 {
            Some(options[0])
        } else {
            None
        })
    } else {
        weighted_pick_ok(scored, cap, r)
    }
}

/// Our benched Pokémon, each with its worth for an energy card; a benched
/// Pokémon counts as the Active one when we have none.
pub open spec fn bench_energy_scored(view: GameView) -> Seq<(CardInstanceId, i64)> {
    view.my_bench@.map_values(
        |p: PokemonView|
            (p.card.id, energy_target_value(
                match view.my_active {
                    Some(a) => a.card.id,
                    None => p.card.id,
                },
                p.card.id,
                attack_views(p.attacks@),
                p.attached_energy@.len() as int,
            ) as i64),
    )
}

/// Our Pokémon in play, the Active one first, each with its worth for an energy card.
pub open spec fn energy_scored(view: GameView) -> Seq<(CardInstanceId, i64)> {
    let active_part: Seq<(CardInstanceId, i64)> = match view.my_active {
        Some(a) => seq![
            (a.card.id, energy_target_value(a.card.id, a.card.id, attack_views(a.attacks@), a.attached_energy@.len() as int) as i64),
        ],
        None => Seq::empty(),
    };
    active_part + bench_energy_scored(view)
}

/// `r` is a weighted pick among our Pokémon in play by their worth for an
/// energy card; `None` when we have none.
pub open spec fn energy_pick_ok(view: GameView, r: Option<CardInstanceId>) -> bool {
    let scored = energy_scored(view);
    if scored.len() == 0 {
        r is None
    } else {
        weighted_pick_ok(scored, 15, r)
    }
}

/// `i` is the first card of `cards` with identifier `id`.
pub open spec fn is_first_card(cards: Seq<CardView>, id: CardInstanceId, i: int) -> bool {
    &&& 0 <= i < cards.len()
    &&& cards[i].id == id
    &&& forall|k: int| 0 <= k < i ==> cards[k].id != id
}

/// The first card with identifier `id`.
pub open spec fn first_card(cards: Seq<CardView>, id: CardInstanceId) -> Option<CardView> {
    if exists|i: int| is_first_card(cards, id, i) {
        Some(cards[choose|i: int| is_first_card(cards, id, i)])
    } else {
        None
    }
}

fn find_card_index(cards: &[CardView], id: CardInstanceId) -> (r: Option<usize>)
    ensures
        r matches Some(i) ==> is_first_card(cards@, id, i as int) && first_card(cards@, id) == Some(cards@[i as int]),
        r is None ==> first_card(cards@, id) is None,
{
    let mut i: usize = 0;
    while i < cards.len()
        invariant
            i <= cards.len(),
            forall|k: int| 0 <= k < i ==> cards@[k].id != id,
        decreases cards.len() - i,
    {
        if cards[i].id == id {
            assert(is_first_card(cards@, id, i as int));
            assert forall|j: int| is_first_card(cards@, id, j) implies j == i by {
                if j < i {
                } else if j > i {
                    assert(cards@[i as int].id == id);
                }
            }
            return Some(i);
        }
        i = i + 1;
    }
    None
}

/// The length in bytes of the UTF-8 encoding of `s`, as `str::len` gives it.
pub open spec fn utf8_len(s: Seq<char>) -> int {
    (vstd::utf8::encode_utf8(s).len() as usize) as int
}

/// How much an option is worth benching: the length of its name when it is in
/// our hand, plus its HP left when it is on our bench.
pub open spec fn bench_basic_score(view: GameView, id: CardInstanceId) -> int {
    (match first_card(view.my_hand@, id) {
        Some(c) => utf8_len(c.name@),
        None => 0,
    }) + (match find_slot(view.my_bench@, id) {
        Some(p) => hp_after_damage(p.hp, p.damage_counters),
        None => 0,
    })
}

/// The options' scores for benching.
pub open spec fn bench_basic_scores(view: GameView, options: Seq<CardInstanceId>) -> Seq<i128> {
    Seq::new(options.len(), |i: int| bench_basic_score(view, options[i]) as i128)
}

/// How many basics to bench: the minimum, at least 1, within the maximum and the options.
pub open spec fn bench_basics_count(min: usize, max: usize, n: int) -> int {
    let a = if min > 1 {
        min as int
    } else {
        1
    };
    let b = if a < max {
        a
    } else {
        max as int
    };
    if b < n {
        b
    } else {
        n
    }
}

/// `r` lists the options with the best scores for benching, the best first,
/// ties in option order, as many as the count says.
pub open spec fn bench_basics_ok(
    view: GameView,
    options: Seq<CardInstanceId>,
    min: usize,
    max: usize,
    r: Seq<CardInstanceId>,
) -> bool {
    exists|order: Seq<usize>|
        #[trigger] is_desc_order(bench_basic_scores(view, options), order, bench_basics_count(min, max, options.len() as int))
            && (forall|t: int| 0 <= t < order.len() ==> order[t] < options.len()) && r == order.map_values(
            |i: usize| options[i as int],
        )
}

/// `r` declares the best attack (most damage, then least energy, the later of
/// equals) and then every attack once, in the order given; nothing when there is none.
pub open spec fn attacks_best_then_listed(views: Seq<AttackSpec>, r: Seq<Action>) -> bool {
    if views.len() == 0 {
        r.len() == 0
    } else {
        &&& r.len() == views.len() + 1
        &&& declared(r[0]) == Some(views[best_damage_then_cheap(views)])
        &&& forall|j: int| 1 <= j <= views.len() ==> declared(#[trigger] r[j]) == Some(views[j - 1])
    }
}

/// The answers the candidate policy proposes to a prompt: a weighted pick of
/// starter or replacement, the best basics to bench, the best attack then the
/// others; nothing for the prompts it does not handle.
pub open spec fn candidate_prompt_ok(view: GameView, prompt: Prompt, r: Seq<Action>) -> bool {
    match prompt {
        Prompt::ChooseStartingActive { options } => {
            ||| r.len() == 0 && starter_pick_ok(view, options@, 20, None)
            ||| r.len() == 1 && (r[0] matches Action::ChooseActive { card_id } && starter_pick_ok(
                view,
                options@,
                20,
                Some(card_id),
            ))
        },
        Prompt::ChooseBenchBasics { options, min, max } => {
            r.len() == 1 && (r[0] matches Action::ChooseBench { card_ids } && bench_basics_ok(
                view,
                options@,
                min,
                max,
                card_ids@,
            ))
        },
        Prompt::ChooseAttack { attacks } => attacks_best_then_listed(attack_views(attacks@), r),
        Prompt::ChooseNewActive { player, options } => {
            if player != view.player_id {
                r == seq![Action::EndTurn]
            } else {
                let pool = new_active_pool(view, options@);
                ||| r.len() == 0 && starter_pick_ok(view, pool, 25, None)
                ||| r.len() == 1 && (r[0] matches Action::ChooseNewActive { card_id } && starter_pick_ok(
                    view,
                    pool,
                    25,
                    Some(card_id),
                ))
            }
        },
        _ => r.len() == 0,
    }
}

/// What the candidate policy does on its own turn: the first energy card on a
/// weighted pick of target (the first listed target when it has none), the best
/// attack when one is usable, the first basic Pokémon, and the end of the
/// turn. Nothing while it is not our turn or a prompt is open.
pub open spec fn candidate_free_ok(view: GameView, r: Seq<Action>) -> bool {
    let h = view.action_hints;
    let ne: int = if h.playable_energy_ids@.len() > 0 && h.attach_targets@.len() > 0 {
        1
    } else {
        0
    };
    let na: int = if h.usable_attacks@.len() > 0 {
        1
    } else {
        0
    };
    let nb: int = if h.playable_basic_ids@.len() > 0 {
        1
    } else {
        0
    };
    let v = attack_views(h.usable_attacks@);
    if view.current_player != view.player_id || view.pending_prompt is Some {
        r.len() == 0
    } else {
        &&& r.len() == ne + na + nb + 1
        &&& ne == 1 ==> (r[0] matches Action::AttachEnergy { energy_id, target_id } && energy_id
            == h.playable_energy_ids@[0] && (energy_pick_ok(view, Some(target_id)) || (energy_pick_ok(
            view,
            None,
        ) && target_id == h.attach_targets@[0])))
        &&& na == 1 ==> declared(r[ne]) == Some(v[best_damage_then_cheap(v)])
        &&& nb == 1 ==> r[ne + na] == Action::PlayBasic { card_id: h.playable_basic_ids@[0] }
        &&& r[ne + na + nb] == Action::EndTurn
    }
}

/// The prompts on which the candidate policy may draw a random number: the
/// choice of a starter, of basics for the bench, and of its own new Active
/// Pokémon. It answers every other prompt without drawing.
pub open spec fn candidate_prompt_draws(view: GameView, prompt: Prompt) -> bool {
    ||| prompt is ChooseStartingActive
    ||| prompt is ChooseBenchBasics
    ||| (prompt matches Prompt::ChooseNewActive { player, .. } && player == view.player_id)
}

pub struct CandidateAi {
    rng: ChaCha8Rng,
}

impl CandidateAi {
    /// The generator the policy draws from.
    pub closed spec fn generator(self) -> ChaCha8Rng {
        self.rng
    }

    /// A policy whose generator is seeded from `seed`.
    pub fn new(seed: u64) -> (r: CandidateAi)
        ensures
            r.generator() == seeded_state(seed),
    {
        CandidateAi { rng: seeded_rng(seed) }
    }

    /// The candidate answers to `prompt`, in the order to try them.
    pub fn propose_prompt_response(&mut self, view: &GameView, prompt: &Prompt) -> (r: Vec<Action>)
        ensures
            candidate_prompt_ok(*view, *prompt, r@),
            !candidate_prompt_draws(*view, *prompt) ==> *final(self) == *old(self),
    {
        let mut actions: Vec<Action> = Vec::new();
        match prompt {
            Prompt::ChooseStartingActive { options } => {
                if let Some(card_id) = self.select_starter(view, options.as_slice()) {
                    actions.push(Action::ChooseActive { card_id });
                }
            },
            Prompt::ChooseBenchBasics { options, min, max } => {
                let picked = self.choose_bench_basics(view, options.as_slice(), *min, *max);
                actions.push(Action::ChooseBench { card_ids: picked });
            },
            Prompt::ChooseAttack { attacks } => {
                let ghost v = attack_views(attacks@);
                if let Some(b) = best_attack_index(attacks.as_slice()) {
                    actions.push(Action::DeclareAttack { attack: copy_attack(&attacks[b]) });
                }
                let ghost off: int = actions@.len() as int;
                let mut i: usize = 0;
                while i < attacks.len()
                    invariant
                        v == attack_views(attacks@),
                        off == (if v.len() > 0 {
                            1int
                        } else {
                            0int
                        }),
                        off == 1 ==> declared(actions@[0]) == Some(v[best_damage_then_cheap(v)]),
                        i <= attacks@.len(),
                        actions@.len() == off + i,
                        forall|j: int| off <= j < off + i ==> declared(#[trigger] actions@[j]) == Some(v[j - off]),
                    decreases attacks.len() - i,
                {
                    actions.push(Action::DeclareAttack { attack: copy_attack(&attacks[i]) });
                    i = i + 1;
                }
            },
            Prompt::ChooseNewActive { player, options } => {
                if *player != view.player_id {
                    return end_turn_only();
                }
                let candidates = if options.len() == 0 {
                    ids_of_pokemon(view.my_bench.as_slice())
                } else {
                    copy_ids(options.as_slice())
                };
                assert(candidates@ == new_active_pool(*view, options@));
                if let Some(card_id) = self.choose_new_active(view, candidates.as_slice()) {
                    actions.push(Action::ChooseNewActive { card_id });
                }
            },
            _ => {},
        }
        actions
    }

    /// The actions to take on our own turn, in order.
    pub fn propose_free_actions(&mut self, view: &GameView) -> (r: Vec<Action>)
        ensures
            candidate_free_ok(*view, r@),
            view.current_player != view.player_id || view.pending_prompt is Some
                || view.action_hints.playable_energy_ids@.len() == 0 || view.action_hints.attach_targets@.len() == 0
                ==> *final(self) == *old(self),
    {
        let mut actions: Vec<Action> = Vec::new();
        if view.current_player != view.player_id {
            return actions;
        }
        if view.pending_prompt.is_some() {
            return actions;
        }
        let hints = &view.action_hints;
        if hints.playable_energy_ids.len() > 0 && hints.attach_targets.len() > 0 {
            let energy_id = hints.playable_energy_ids[0];
            match self.choose_energy_target(view) {
                Some(target_id) => {
                    actions.push(Action::AttachEnergy { energy_id, target_id });
                },
                None => {
                    actions.push(Action::AttachEnergy { energy_id, target_id: hints.attach_targets[0] });
                },
            }
        }
        if let Some(b) = best_attack_index(hints.usable_attacks.as_slice()) {
            actions.push(Action::DeclareAttack { attack: copy_attack(&hints.usable_attacks[b]) });
        }
        if hints.playable_basic_ids.len() > 0 {
            actions.push(Action::PlayBasic { card_id: hints.playable_basic_ids[0] });
        }
        actions.push(Action::EndTurn);
        actions
    }

    /// A weighted random pick among scored cards (see `weighted_pick_ok`).
    fn pick_weighted(&mut self, scored: &[(CardInstanceId, i64)], cap: i64) -> (r: Option<CardInstanceId>)
        requires
            scored@.len() > 0,
            scores_bounded(scored@),
            1 <= cap <= 100,
        ensures
            weighted_pick_ok(scored@, cap as int, r),
    {
        let mut scores: Vec<i128> = Vec::new();
        let mut i: usize = 0;
        while i < scored.len()
            invariant
                i <= scored@.len(),
                scores@ == scores_of(scored@).take(i as int),
            decreases scored.len() - i,
        {
            scores.push(scored[i].1 as i128);
            i = i + 1;
            assert(scores@ =~= scores_of(scored@).take(i as int));
        }
        assert(scores@ =~= scores_of(scored@));
        let order = desc_order(scores.as_slice(), scored.len());
        if order.len() == 0 {
            assert(order@.contains((0int) as usize));
        }
        let top = scored[order[0]].1;
        let mut weighted: Vec<(CardInstanceId, i64)> = Vec::new();
        let mut t: usize = 0;
        while t < order.len()
            invariant
                scored@.len() > 0,
                scores_bounded(scored@),
                1 <= cap <= 100,
                order@.len() > 0,
                forall|u: int| 0 <= u < order@.len() ==> order@[u] < scored@.len(),
                top == scored@[order@[0] as int].1,
                t <= order@.len(),
                weighted@ == gap_weights(scored@, order@, cap as int).take(t as int),
            decreases order.len() - t,
        {
            let (id, score) = scored[order[t]];
            let w0 = cap - (top - score);
            let w: i64 = if w0 > 1 {
                w0
            } else {
                1
            };
            weighted.push((id, w));
            t = t + 1;
            assert(weighted@ =~= gap_weights(scored@, order@, cap as int).take(t as int));
        }
        let ghost gw = gap_weights(scored@, order@, cap as int);
        assert(weighted@ =~= gw);
        assert(gw.last().1 >= 1);
        assert(weighted_pool(gw).len() > 0);
        let r = self.weighted_choice(weighted.as_slice());
        assert(is_desc_order(scores_of(scored@), order@, scored@.len() as int));
        r
    }

    /// The options found on our bench, with their worth as the Active Pokémon.
    fn scored_starters(view: &GameView, options: &[CardInstanceId]) -> (r: Vec<(CardInstanceId, i64)>)
        ensures
            r@ == starter_scored(*view, options@),
            scores_bounded(r@),
    {
        let mut scored: Vec<(CardInstanceId, i64)> = Vec::new();
        let mut i: usize = 0;
        while i < options.len()
            invariant
                i <= options@.len(),
                scored@ == starter_scored(*view, options@.take(i as int)),
                scores_bounded(scored@),
            decreases options.len() - i,
        {
            let id = options[i];
            assert(options@.take(i + 1).drop_last() =~= options@.take(i as int));
            assert(options@.take(i + 1).last() == id);
            match find_slot_index(view.my_bench.as_slice(), id) {
                Some(k) => {
                    let p = &view.my_bench[k];
                    let score = score_starter(p.hp, p.damage_counters, p.attached_energy.len(), p.attacks.as_slice());
                    scored.push((id, score));
                },
                None => {},
            }
            i = i + 1;
        }
        assert(options@.take(options@.len() as int) =~= options@);
        scored
    }

    /// The Pokémon to start with: a weighted pick by worth among the options
    /// on our bench, the first option when none is.
    pub fn select_starter(&mut self, view: &GameView, options: &[CardInstanceId]) -> (r: Option<CardInstanceId>)
        ensures
            starter_pick_ok(*view, options@, 20, r),
    {
        let scored = Self::scored_starters(view, options);
        if scored.len() == 0 {
            if options.len() > 0 {
                return Some(options[0]);
            }
            return None;
        }
        self.pick_weighted(scored.as_slice(), 20)
    }

    /// The Pokémon to promote: as for the starter, with flatter weights.
    pub fn choose_new_active(&mut self, view: &GameView, options: &[CardInstanceId]) -> (r: Option<CardInstanceId>)
        ensures
            starter_pick_ok(*view, options@, 25, r),
    {
        let scored = Self::scored_starters(view, options);
        if scored.len() == 0 {
            if options.len() > 0 {
                return Some(options[0]);
            }
            return None;
        }
        self.pick_weighted(scored.as_slice(), 25)
    }

    /// Where to attach energy: a weighted pick among our Pokémon in play.
    pub fn choose_energy_target(&mut self, view: &GameView) -> (r: Option<CardInstanceId>)
        ensures
            energy_pick_ok(*view, r),
    {
        let mut scored: Vec<(CardInstanceId, i64)> = Vec::new();
        let active_id: Option<CardInstanceId> = match &view.my_active {
            Some(a) => Some(a.card.id),
            None => None,
        };
        match &view.my_active {
            Some(a) => {
                let score = score_energy_target(a.card.id, a.card.id, a.attacks.as_slice(), a.attached_energy.len());
                scored.push((a.card.id, score));
            },
            None => {},
        }
        let ghost head = scored@;
        let ghost tail = bench_energy_scored(*view);
        assert(energy_scored(*view) =~= head + tail);
        let mut i: usize = 0;
        while i < view.my_bench.len()
            invariant
                i <= view.my_bench@.len(),
                head.len() <= 1,
                tail == bench_energy_scored(*view),
                energy_scored(*view) == head + tail,
                active_id == (match view.my_active {
                    Some(a) => Some(a.card.id),
                    None => None::<CardInstanceId>,
                }),
                scored@ == head + tail.take(i as int),
                scores_bounded(scored@),
            decreases view.my_bench.len() - i,
        {
            let p = &view.my_bench[i];
            let owner = match active_id {
                Some(a) => a,
                None => p.card.id,
            };
            let score = score_energy_target(owner, p.card.id, p.attacks.as_slice(), p.attached_energy.len());
            assert(owner == (match view.my_active {
                Some(a) => a.card.id,
                None => p.card.id,
            }));
            assert(tail[i as int] == (p.card.id, score));
            scored.push((p.card.id, score));
            i = i + 1;
            assert(scored@ =~= head + tail.take(i as int));
        }
        assert(tail.take(tail.len() as int) =~= tail);
        if scored.len() == 0 {
            return None;
        }
        self.pick_weighted(scored.as_slice(), 15)
    }

    /// The basics to bench: those with the best scores, best first.
    pub fn choose_bench_basics(&mut self, view: &GameView, options: &[CardInstanceId], min: usize, max: usize) -> (r: Vec<CardInstanceId>)
        ensures
            bench_basics_ok(*view, options@, min, max, r@),
    {
        let a = if min > 1 {
            min
        } else {
            1
        };
        let b = if a < max {
            a
        } else {
            max
        };
        let count = if b < options.len() {
            b
        } else {
            options.len()
        };
        let mut scores: Vec<i128> = Vec::new();
        let mut i: usize = 0;
        while i < options.len()
            invariant
                i <= options@.len(),
                scores@ == bench_basic_scores(*view, options@).take(i as int),
            decreases options.len() - i,
        {
            let id = options[i];
            let mut score: i128 = 0;
            match find_card_index(view.my_hand.as_slice(), id) {
                Some(k) => {
                    score = score + view.my_hand[k].name.as_str().len() as i128;
                },
                None => {},
            }
            match find_slot_index(view.my_bench.as_slice(), id) {
                Some(k) => {
                    let p = &view.my_bench[k];
                    score = score + remaining_hp(p.hp, p.damage_counters) as i128;
                },
                None => {},
            }
            scores.push(score);
            i = i + 1;
            assert(scores@ =~= bench_basic_scores(*view, options@).take(i as int));
        }
        assert(scores@ =~= bench_basic_scores(*view, options@));
        let order = desc_order(scores.as_slice(), count);
        let mut out: Vec<CardInstanceId> = Vec::new();
        let mut t: usize = 0;
        while t < order.len()
            invariant
                forall|u: int| 0 <= u < order@.len() ==> order@[u] < options@.len(),
                t <= order@.len(),
                out@ == order@.take(t as int).map_values(|k: usize| options@[k as int]),
            decreases order.len() - t,
        {
            out.push(options[order[t]]);
            t = t + 1;
            assert(out@ =~= order@.take(t as int).map_values(|k: usize| options@[k as int]));
        }
        assert(order@.take(order@.len() as int) =~= order@);
        assert(is_desc_order(bench_basic_scores(*view, options@), order@, bench_basics_count(min, max, options@.len() as int)));
        out
    }

    /// A random card from the weighted pool; the first card when the pool is
    /// empty, and `None` when there is no card at all.
    pub fn weighted_choice(&mut self, ids: &[(CardInstanceId, i64)]) -> (r: Option<CardInstanceId>)
        ensures
            weighted_pool(ids@).len() == 0 ==> r == (if ids@.len() > 0 {
                Some(ids@[0].0)
            } else {
                None
            }),
            weighted_pool(ids@).len() > 0 ==> (r matches Some(x) && weighted_pool(ids@).contains(x)),
    {
        let mut pool: Vec<CardInstanceId> = Vec::new();
        let mut i: usize = 0;
        while i < ids.len()
            invariant
                i <= ids@.len(),
                pool@ == weighted_pool(ids@.take(i as int)),
            decreases ids.len() - i,
        {
            let (id, weight) = ids[i];
            let w: i64 = if weight > 0 {
                weight
            } else {
                0
            };
            let ghost before = pool@;
            let mut j: i64 = 0;
            while j < w
                invariant
                    0 <= j <= w,
                    pool@ == before + Seq::new(j as nat, |k: int| id),
                decreases w - j,
            {
                pool.push(id);
                j = j + 1;
                assert(pool@ =~= before + Seq::new(j as nat, |k: int| id));
            }
            assert(ids@.take(i + 1).drop_last() =~= ids@.take(i as int));
            assert(ids@.take(i + 1).last() == ids@[i as int]);
            i = i + 1;
        }
        assert(ids@.take(ids@.len() as int) =~= ids@);
        if pool.len() == 0 {
            if ids.len() > 0 {
                return Some(ids[0].0);
            }
            return None;
        }
        choose_copied(&mut self.rng, pool.as_slice())
    }
}

} // verus!
