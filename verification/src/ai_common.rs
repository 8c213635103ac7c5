//! Building blocks shared by the decision policies: random picks among card
//! identifiers, the best attack under a preference, and what a player's view
//! holds of a given Pokémon.
use crate::model::{
    Attack, AttackCost, AttackSpec, CardInstanceId, CardView, GameView, PlayerId, PokemonView, Prompt, Type, copy_ids,
};
use crate::rng::{choose_copied, shuffle_vec};
use rand_chacha::ChaCha8Rng;
use vstd::prelude::*;

verus! {

/// The player a prompt asks to choose, for the prompts that name one other
/// than the coin flip.
pub open spec fn prompt_player(prompt: Prompt) -> Option<PlayerId> {
    match prompt {
        Prompt::ChooseCardsFromDeck { player, .. } => Some(player),
        Prompt::ChooseCardsFromDiscard { player, .. } => Some(player),
        Prompt::ChoosePokemonInPlay { player, .. } => Some(player),
        Prompt::ReorderDeckTop { player, .. } => Some(player),
        Prompt::ChooseAttachedEnergy { player, .. } => Some(player),
        Prompt::ChooseCardsFromHand { player, .. } => Some(player),
        Prompt::ChooseCardsInPlay { player, .. } => Some(player),
        Prompt::ChoosePrizeCards { player, .. } => Some(player),
        Prompt::ChooseDefenderAttack { player, .. } => Some(player),
        Prompt::ChoosePokemonAttack { player, .. } => Some(player),
        Prompt::ChooseSpecialCondition { player, .. } => Some(player),
        Prompt::ChooseNewActive { player, .. } => Some(player),
        _ => None,
    }
}

/// The prompt asks another player than the one whose view this is.
pub open spec fn asks_another_player(view: GameView, prompt: Prompt) -> bool {
    prompt_player(prompt) matches Some(p) && p != view.player_id
}

/// Prompts every policy answers without drawing a random number: those for
/// another player, the coin flip, and an attack choice among no attacks.
pub open spec fn answered_without_drawing(view: GameView, prompt: Prompt) -> bool {
    ||| asks_another_player(view, prompt)
    ||| prompt is CoinFlipForEffect
    ||| (prompt matches Prompt::ChooseAttack { attacks } && attacks@.len() == 0)
}

/// `n` limited to `len`.
pub open spec fn clamp_len(n: int, len: int) -> int {
    if n < len {
        n
    } else {
        len
    }
}

/// `picked` is the first `k` (at most all) items of some rearrangement of `options`.
pub open spec fn is_random_pick(picked: Seq<CardInstanceId>, options: Seq<CardInstanceId>, k: int) -> bool {
    exists|perm: Seq<CardInstanceId>|
        #![trigger perm.to_multiset()]
        perm.to_multiset() == options.to_multiset() && perm.len() == options.len() && picked
            == perm.take(clamp_len(k, perm.len() as int))
}

/// `perm` is a rearrangement of the indices `0..n`.
pub open spec fn is_index_permutation(perm: Seq<usize>, n: int) -> bool {
    &&& perm.len() == n
    &&& perm.to_multiset() == Seq::new(n as nat, |i: int| i as usize).to_multiset()
}

/// Whether `x` occurs among `ids`.
pub fn ids_contain(ids: &[CardInstanceId], x: CardInstanceId) -> (r: bool)
    ensures
        r == ids@.contains(x),
{
    let mut i: usize = 0;
    while i < ids.len()
        invariant
            i <= ids.len(),
            forall|j: int| 0 <= j < i ==> ids@[j] != x,
        decreases ids.len() - i,
    {
        if ids[i] == x {
            assert(ids@[i as int] == x);
            return true;
        }
        i = i + 1;
    }
    false
}

/// `k` of the options (all of them, when there are fewer), in random order.
pub fn choose_k(rng: &mut ChaCha8Rng, options: &[CardInstanceId], k: usize) -> (r: Vec<CardInstanceId>)
    ensures
        is_random_pick(r@, options@, k as int),
{
    let mut ids = copy_ids(options);
    shuffle_vec(rng, &mut ids);
    let ghost perm = ids@;
    ids.truncate(k);
    assert(perm.to_multiset() == options@.to_multiset() && perm.len() == options@.len() && ids@
        == perm.take(clamp_len(k as int, perm.len() as int)));
    ids
}

/// One of the options at random, `None` when there is none.
pub fn choose_one(rng: &mut ChaCha8Rng, options: &[CardInstanceId]) -> (r: Option<CardInstanceId>)
    ensures
        r is None <==> options@.len() == 0,
        r matches Some(x) ==> options@.contains(x),
{
    choose_copied(rng, options)
}

/// The indices `0..n` in random order.
pub fn shuffled_indices(rng: &mut ChaCha8Rng, n: usize) -> (r: Vec<usize>)
    ensures
        is_index_permutation(r@, n as int),
{
    let mut idx: Vec<usize> = Vec::new();
    let mut i: usize = 0;
    while i < n
        invariant
            i <= n,
            idx@ == Seq::new(i as nat, |j: int| j as usize),
        decreases n - i,
    {
        idx.push(i);
        i = i + 1;
        assert(idx@ =~= Seq::new(i as nat, |j: int| j as usize));
    }
    shuffle_vec(rng, &mut idx);
    idx
}

/// The attack that names nothing: no damage, no cost, no effect.
pub open spec fn dummy_attack_spec() -> AttackSpec {
    AttackSpec {
        name: Seq::empty(),
        damage: 0,
        attack_type: Type::Colorless,
        total_energy: 0,
        cost_types: Seq::empty(),
        effect: None,
    }
}

pub fn dummy_attack() -> (r: Attack)
    ensures
        r@ == dummy_attack_spec(),
{
    Attack {
        name: String::new(),
        damage: 0,
        attack_type: Type::Colorless,
        cost: AttackCost { total_energy: 0, types: Vec::new() },
        effect_ast: None,
    }
}

/// An attack called `name`, otherwise the dummy attack.
pub open spec fn named_attack_spec(name: Seq<char>) -> AttackSpec {
    AttackSpec { name, ..dummy_attack_spec() }
}

pub fn named_attack(name: String) -> (r: Attack)
    ensures
        r@ == named_attack_spec(name@),
{
    Attack {
        name,
        damage: 0,
        attack_type: Type::Colorless,
        cost: AttackCost { total_energy: 0, types: Vec::new() },
        effect_ast: None,
    }
}

/// The identifiers of the cards.
pub open spec fn card_ids(cards: Seq<CardView>) -> Seq<CardInstanceId> {
    cards.map_values(|c: CardView| c.id)
}

pub fn ids_of_cards(cards: &[CardView]) -> (r: Vec<CardInstanceId>)
    ensures
        r@ == card_ids(cards@),
{
    let mut out: Vec<CardInstanceId> = Vec::new();
    let mut i: usize = 0;
    while i < cards.len()
        invariant
            i <= cards.len(),
            out@ == card_ids(cards@.take(i as int)),
        decreases cards.len() - i,
    {
        out.push(cards[i].id);
        i = i + 1;
        assert(card_ids(cards@.take(i as int)) =~= card_ids(cards@.take(i - 1)).push(cards@[i - 1].id));
    }
    assert(cards@.take(cards.len() as int) =~= cards@);
    out
}

/// The identifiers of the Pokémon.
pub open spec fn pokemon_ids(slots: Seq<PokemonView>) -> Seq<CardInstanceId> {
    slots.map_values(|p: PokemonView| p.card.id)
}

pub fn ids_of_pokemon(slots: &[PokemonView]) -> (r: Vec<CardInstanceId>)
    ensures
        r@ == pokemon_ids(slots@),
{
    let mut out: Vec<CardInstanceId> = Vec::new();
    let mut i: usize = 0;
    while i < slots.len()
        invariant
            i <= slots.len(),
            out@ == pokemon_ids(slots@.take(i as int)),
        decreases slots.len() - i,
    {
        out.push(slots[i].card.id);
        i = i + 1;
        assert(pokemon_ids(slots@.take(i as int)) =~= pokemon_ids(slots@.take(i - 1)).push(
            slots@[i - 1].card.id,
        ));
    }
    assert(slots@.take(slots.len() as int) =~= slots@);
    out
}

/// The options that are also among `allowed`, in their order.
pub open spec fn keep_allowed(options: Seq<CardInstanceId>, allowed: Seq<CardInstanceId>) -> Seq<
    CardInstanceId,
>
    decreases options.len(),
{
    if options.len() == 0 {
        Seq::empty()
    } else {
        let rest = keep_allowed(options.drop_last(), allowed);
        if allowed.contains(options.last()) {
            rest.push(options.last())
        } else {
            rest
        }
    }
}

pub fn filter_allowed(options: &[CardInstanceId], allowed: &[CardInstanceId]) -> (r: Vec<
    CardInstanceId,
>)
    ensures
        r@ == keep_allowed(options@, allowed@),
{
    let mut out: Vec<CardInstanceId> = Vec::new();
    let mut i: usize = 0;
    while i < options.len()
        invariant
            i <= options.len(),
            out@ == keep_allowed(options@.take(i as int), allowed@),
        decreases options.len() - i,
    {
        assert(options@.take(i + 1).drop_last() =~= options@.take(i as int));
        if ids_contain(allowed, options[i]) {
            out.push(options[i]);
        }
        i = i + 1;
    }
    assert(options@.take(options.len() as int) =~= options@);
    out
}

/// `i` is the first position holding the Pokémon `pid`.
pub open spec fn is_first_slot(slots: Seq<PokemonView>, pid: CardInstanceId, i: int) -> bool {
    &&& 0 <= i < slots.len()
    &&& slots[i].card.id == pid
    &&& forall|k: int| 0 <= k < i ==> slots[k].card.id != pid
}

/// The first Pokémon `pid` among the slots.
pub open spec fn find_slot(slots: Seq<PokemonView>, pid: CardInstanceId) -> Option<PokemonView> {
    if exists|i: int| is_first_slot(slots, pid, i) {
        Some(slots[choose|i: int| is_first_slot(slots, pid, i)])
    } else {
        None
    }
}

/// Position of the first Pokémon `pid` among the slots.
pub fn find_slot_index(slots: &[PokemonView], pid: CardInstanceId) -> (r: Option<usize>)
    ensures
        r matches Some(i) ==> is_first_slot(slots@, pid, i as int) && find_slot(slots@, pid)
            == Some(slots@[i as int]),
        r is None ==> find_slot(slots@, pid) is None,
{
    let mut i: usize = 0;
    while i < slots.len()
        invariant
            i <= slots.len(),
            forall|k: int| 0 <= k < i ==> slots@[k].card.id != pid,
        decreases slots.len() - i,
    {
        if slots[i].card.id == pid {
            assert(is_first_slot(slots@, pid, i as int));
            assert forall|j: int| is_first_slot(slots@, pid, j) implies j == i by {
                if j < i {
                } else if j > i {
                    assert(slots@[i as int].card.id == pid);
                }
            }
            return Some(i);
        }
        i = i + 1;
    }
    None
}

/// Our Pokémon `pid`: the active one when it is `pid`, else the first such on the bench.
pub open spec fn my_pokemon(view: GameView, pid: CardInstanceId) -> Option<PokemonView> {
    match view.my_active {
        Some(a) if a.card.id == pid => Some(a),
        _ => find_slot(view.my_bench@, pid),
    }
}

/// The opponent's Pokémon `pid`, found in the same way.
pub open spec fn opponent_pokemon(view: GameView, pid: CardInstanceId) -> Option<PokemonView> {
    match view.opponent_active {
        Some(a) if a.card.id == pid => Some(a),
        _ => find_slot(view.opponent_bench@, pid),
    }
}

pub fn find_my_pokemon<'a>(view: &'a GameView, pid: CardInstanceId) -> (r: Option<&'a PokemonView>)
    ensures
        r matches Some(p) ==> my_pokemon(*view, pid) == Some(*p),
        r is None ==> my_pokemon(*view, pid) is None,
{
    if let Some(active) = &view.my_active {
        if active.card.id == pid {
            return Some(active);
        }
    }
    match find_slot_index(view.my_bench.as_slice(), pid) {
        Some(i) => Some(&view.my_bench[i]),
        None => None,
    }
}

pub fn find_opponent_pokemon<'a>(view: &'a GameView, pid: CardInstanceId) -> (r: Option<
    &'a PokemonView,
>)
    ensures
        r matches Some(p) ==> opponent_pokemon(*view, pid) == Some(*p),
        r is None ==> opponent_pokemon(*view, pid) is None,
{
    if let Some(active) = &view.opponent_active {
        if active.card.id == pid {
            return Some(active);
        }
    }
    match find_slot_index(view.opponent_bench.as_slice(), pid) {
        Some(i) => Some(&view.opponent_bench[i]),
        None => None,
    }
}

/// The identifiers of the energy attached to our Pokémon `pid`; none when we have no such Pokémon.
pub open spec fn my_energy_ids(view: GameView, pid: CardInstanceId) -> Seq<CardInstanceId> {
    match my_pokemon(view, pid) {
        Some(p) => card_ids(p.attached_energy@),
        None => Seq::empty(),
    }
}

pub fn energy_ids_on(view: &GameView, pid: CardInstanceId) -> (r: Vec<CardInstanceId>)
    ensures
        r@ == my_energy_ids(*view, pid),
{
    match find_my_pokemon(view, pid) {
        Some(p) => ids_of_cards(p.attached_energy.as_slice()),
        None => Vec::new(),
    }
}

/// How many energy cards our Pokémon `pid` has attached; 0 when we have no such Pokémon.
pub open spec fn my_energy_count(view: GameView, pid: CardInstanceId) -> int {
    match my_pokemon(view, pid) {
        Some(p) => p.attached_energy@.len() as int,
        None => 0,
    }
}

pub fn attached_energy_count_on(view: &GameView, pid: CardInstanceId) -> (r: usize)
    ensures
        r == my_energy_count(*view, pid),
{
    match find_my_pokemon(view, pid) {
        Some(p) => p.attached_energy.len(),
        None => 0,
    }
}

} // verus!

verus! {

/// The smaller of two counts.
pub fn min_usize(a: usize, b: usize) -> (r: usize)
    ensures
        r == if a < b {
            a
        } else {
            b
        },
{
    if a < b {
        a
    } else {
        b
    }
}

/// The count a prompt asks for at least (or at most): the given bound, else `count`.
pub open spec fn bound_or(bound: Option<usize>, count: usize) -> usize {
    match bound {
        Some(b) => b,
        None => count,
    }
}

pub fn bound_or_count(bound: Option<usize>, count: usize) -> (r: usize)
    ensures
        r == bound_or(bound, count),
{
    match bound {
        Some(b) => b,
        None => count,
    }
}

/// The smallest of three counts.
pub open spec fn min3(a: int, b: int, c: int) -> int {
    let ab = if a < b {
        a
    } else {
        b
    };
    if ab < c {
        ab
    } else {
        c
    }
}

/// The position of the best item of `a` under the strict preference `gt`,
/// as a left-to-right scan finds it: a later item replaces the best so far
/// unless the best so far is strictly preferred to it.
pub open spec fn scan_best<A>(a: Seq<A>, gt: spec_fn(A, A) -> bool) -> int
    decreases a.len(),
{
    if a.len() <= 1 {
        0
    } else {
        let i = scan_best(a.drop_last(), gt);
        if gt(a[i], a.last()) {
            i
        } else {
            a.len() - 1
        }
    }
}

pub proof fn lemma_scan_best_bounds<A>(a: Seq<A>, gt: spec_fn(A, A) -> bool)
    requires
        a.len() > 0,
    ensures
        0 <= scan_best(a, gt) < a.len(),
    decreases a.len(),
{
    if a.len() > 1 {
        lemma_scan_best_bounds(a.drop_last(), gt);
    }
}

/// One step of the scan: the best of the first `i + 1` items.
pub proof fn lemma_scan_best_step<A>(a: Seq<A>, gt: spec_fn(A, A) -> bool, i: int)
    requires
        1 <= i < a.len(),
    ensures
        0 <= scan_best(a.take(i), gt) < i,
        scan_best(a.take(i + 1), gt) == if gt(a[scan_best(a.take(i), gt)], a[i]) {
            scan_best(a.take(i), gt)
        } else {
            i
        },
{
    lemma_scan_best_bounds(a.take(i), gt);
    assert(a.take(i + 1).drop_last() =~= a.take(i));
}

} // verus!

verus! {

/// The scan over a sequence with one more item.
pub proof fn lemma_scan_best_push<A>(s: Seq<A>, x: A, gt: spec_fn(A, A) -> bool)
    requires
        s.len() > 0,
    ensures
        0 <= scan_best(s, gt) < s.len(),
        scan_best(s.push(x), gt) == if gt(s[scan_best(s, gt)], x) {
            scan_best(s, gt)
        } else {
            s.len() as int
        },
{
    lemma_scan_best_bounds(s, gt);
    assert(s.push(x).drop_last() =~= s);
}

/// Lexicographic order on pairs of keys.
pub open spec fn pair_lt(a: (u64, u64), b: (u64, u64)) -> bool {
    a.0 < b.0 || (a.0 == b.0 && a.1 < b.1)
}

/// `p` is, among the eligible positions not yet chosen, the earliest of least key.
pub open spec fn is_first_min_unchosen(keys: Seq<(u64, u64)>, elig: Seq<bool>, chosen: Seq<usize>, p: usize) -> bool {
    &&& p < keys.len()
    &&& elig[p as int]
    &&& !chosen.contains(p)
    &&& forall|q: int|
        0 <= q < keys.len() && elig[q] && !chosen.contains(q as usize) ==> !pair_lt(keys[q], keys[p as int])
            && (keys[q] == keys[p as int] ==> p <= q)
}

/// `idx` lists at most `take` eligible positions by increasing key, ties in
/// the order given (the first positions of a stable sort), and stops
/// short of `take` only when no eligible position is left.
pub open spec fn is_greedy_min(keys: Seq<(u64, u64)>, elig: Seq<bool>, idx: Seq<usize>, take: int) -> bool {
    &&& idx.len() <= take
    &&& forall|t: int| 0 <= t < idx.len() ==> is_first_min_unchosen(keys, elig, idx.take(t), #[trigger] idx[t])
    &&& idx.len() < take ==> forall|q: int| 0 <= q < keys.len() && elig[q] ==> idx.contains(q as usize)
}

/// The eligible positions in increasing order of key, at most `take` of them.
pub fn greedy_min_order(keys: &[(u64, u64)], elig: &[bool], take: usize) -> (r: Vec<usize>)
    requires
        keys@.len() == elig@.len(),
    ensures
        is_greedy_min(keys@, elig@, r@, take as int),
        forall|t: int| 0 <= t < r@.len() ==> r@[t] < keys@.len(),
{
    let n = keys.len();
    let mut chosen: Vec<bool> = Vec::new();
    let mut k: usize = 0;
    while k < n
        invariant
            k <= n,
            chosen@.len() == k,
            forall|q: int| 0 <= q < k ==> !chosen@[q],
        decreases n - k,
    {
        chosen.push(false);
        k = k + 1;
    }
    let mut idx: Vec<usize> = Vec::new();
    while idx.len() < take
        invariant
            n == keys@.len(),
            n == elig@.len(),
            chosen@.len() == n,
            idx@.len() <= take,
            forall|q: int| 0 <= q < n ==> (chosen@[q] <==> idx@.contains(q as usize)),
            forall|q: int| 0 <= q < idx@.len() ==> idx@[q] < n,
            forall|t: int| 0 <= t < idx@.len() ==> is_first_min_unchosen(keys@, elig@, idx@.take(t), #[trigger] idx@[t]),
        ensures
            idx@.len() <= take,
            forall|q: int| 0 <= q < idx@.len() ==> idx@[q] < n,
            forall|t: int| 0 <= t < idx@.len() ==> is_first_min_unchosen(keys@, elig@, idx@.take(t), #[trigger] idx@[t]),
            idx@.len() < take ==> forall|q: int| 0 <= q < keys@.len() && elig@[q] ==> idx@.contains(q as usize),
        decreases take - idx@.len(),
    {
        let mut best: usize = n;
        let mut p: usize = 0;
        while p < n
            invariant
                n == keys@.len(),
                n == elig@.len(),
                chosen@.len() == n,
                p <= n,
                best == n || (best < p && elig@[best as int] && !chosen@[best as int]),
                best == n ==> forall|q: int| 0 <= q < p ==> !(elig@[q] && !chosen@[q]),
                best < n ==> forall|q: int|
                    0 <= q < p && elig@[q] && !chosen@[q] ==> !pair_lt(keys@[q], keys@[best as int])
                        && (keys@[q] == keys@[best as int] ==> best <= q),
            decreases n - p,
        {
            if elig[p] && !chosen[p] {
                if best == n {
                    best = p;
                } else {
                    let (a0, a1) = keys[p];
                    let (b0, b1) = keys[best];
                    if a0 < b0 || (a0 == b0 && a1 < b1) {
                        best = p;
                    }
                }
            }
            p = p + 1;
        }
        if best == n {
            assert forall|q: int| 0 <= q < n && elig@[q] implies idx@.contains(q as usize) by {
                assert(chosen@[q]);
            }
            break;
        }
        let ghost prev = idx@;
        assert(is_first_min_unchosen(keys@, elig@, prev, best));
        idx.push(best);
        chosen.set(best, true);
        assert(idx@.take(prev.len() as int) =~= prev);
        assert forall|u: int| 0 <= u < idx@.len() implies is_first_min_unchosen(keys@, elig@, idx@.take(u), #[trigger] idx@[u]) by {
            if u < prev.len() {
                assert(idx@.take(u) =~= prev.take(u));
            }
        }
        assert forall|q: int| 0 <= q < n implies (chosen@[q] <==> idx@.contains(q as usize)) by {
            if q == best as int {
                assert(idx@[prev.len() as int] == best);
            } else {
                if prev.contains(q as usize) {
                    let w = choose|w: int| 0 <= w < prev.len() && prev[w] == q as usize;
                    assert(idx@[w] == q as usize);
                }
                if idx@.contains(q as usize) {
                    let w = choose|w: int| 0 <= w < idx@.len() && idx@[w] == q as usize;
                    assert(w < prev.len());
                    assert(prev[w] == q as usize);
                }
            }
        }
    }
    idx
}

} // verus!
