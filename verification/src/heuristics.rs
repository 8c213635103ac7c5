//! Heuristics of the second and third reference policies: which attack to
//! prefer, where to attach energy, which Pokémon to promote, whether to bench
//! another basic, and which cards of a hand to give up.
use crate::ai_common::{
    choose_one, ids_contain, lemma_scan_best_step, min_usize, my_energy_count, scan_best,
    attached_energy_count_on,
};
use crate::model::{Attack, AttackSpec, CardInstanceId, GameView, attack_views};
use crate::rng::{gen_range_i32, gen_ratio};
use crate::text::{seq_less, str_less};
use rand_chacha::ChaCha8Rng;
use vstd::prelude::*;

verus! {

/// `x` is strictly preferred to `y`: more damage; then less energy; then fewer
/// typed energy requirements; then the greater name.
pub open spec fn gt_damage_first(x: AttackSpec, y: AttackSpec) -> bool {
    x.damage > y.damage || (x.damage == y.damage && (x.total_energy < y.total_energy || (
    x.total_energy == y.total_energy && (x.cost_types.len() < y.cost_types.len() || (
    x.cost_types.len() == y.cost_types.len() && seq_less(y.name, x.name))))))
}

pub open spec fn pref_damage_first() -> spec_fn(AttackSpec, AttackSpec) -> bool {
    |x: AttackSpec, y: AttackSpec| gt_damage_first(x, y)
}

pub open spec fn best_damage_first(views: Seq<AttackSpec>) -> int {
    scan_best(views, pref_damage_first())
}

pub fn attack_gt_damage_first(a: &Attack, b: &Attack) -> (r: bool)
    ensures
        r == gt_damage_first(a@, b@),
{
    if a.damage != b.damage {
        return a.damage > b.damage;
    }
    if a.cost.total_energy != b.cost.total_energy {
        return a.cost.total_energy < b.cost.total_energy;
    }
    if a.cost.types.len() != b.cost.types.len() {
        return a.cost.types.len() < b.cost.types.len();
    }
    str_less(b.name.as_str(), a.name.as_str())
}

/// Position of the best attack by damage first, as `Iterator::max_by` finds it.
pub fn best_attack_damage_first(attacks: &[Attack]) -> (r: Option<usize>)
    ensures
        r is None <==> attacks@.len() == 0,
        r matches Some(i) ==> i < attacks@.len() && i == best_damage_first(attack_views(attacks@)),
{
    if attacks.len() == 0 {
        return None;
    }
    let ghost v = attack_views(attacks@);
    let mut best: usize = 0;
    let mut i: usize = 1;
    while i < attacks.len()
        invariant
            v == attack_views(attacks@),
            1 <= i <= attacks.len(),
            best < i,
            best == scan_best(v.take(i as int), pref_damage_first()),
        decreases attacks.len() - i,
    {
        proof {
            lemma_scan_best_step(v, pref_damage_first(), i as int);
        }
        if !attack_gt_damage_first(&attacks[best], &attacks[i]) {
            best = i;
        }
        i = i + 1;
    }
    assert(v.take(attacks.len() as int) =~= v);
    Some(best)
}

/// `t` is one of the targets, with the most energy attached among them
/// (`prefer_max`), or the least.
pub open spec fn extreme_energy(view: GameView, targets: Seq<CardInstanceId>, prefer_max: bool, t: CardInstanceId) -> bool {
    &&& targets.contains(t)
    &&& forall|u: CardInstanceId|
        #![trigger targets.contains(u)]
        targets.contains(u) ==> if prefer_max {
            my_energy_count(view, u) <= my_energy_count(view, t)
        } else {
            my_energy_count(view, u) >= my_energy_count(view, t)
        }
}

/// A target with the most (or least) energy attached; ties broken at random.
pub fn pick_target_by_energy(
    rng: &mut ChaCha8Rng,
    view: &GameView,
    targets: &[CardInstanceId],
    prefer_max: bool,
) -> (r: Option<CardInstanceId>)
    ensures
        r is None <==> targets@.len() == 0,
        r matches Some(t) ==> extreme_energy(*view, targets@, prefer_max, t),
{
    if targets.len() == 0 {
        return None;
    }
    let mut best_ids: Vec<CardInstanceId> = Vec::new();
    let mut best_val: usize = 0;
    let mut i: usize = 0;
    while i < targets.len()
        invariant
            i <= targets.len(),
            i > 0 ==> best_ids@.len() > 0,
            forall|x: CardInstanceId|
                #![trigger best_ids@.contains(x)]
                best_ids@.contains(x) ==> targets@.contains(x) && my_energy_count(*view, x) == best_val,
            forall|k: int|
                0 <= k < i ==> if prefer_max {
                    my_energy_count(*view, #[trigger] targets@[k]) <= best_val
                } else {
                    my_energy_count(*view, #[trigger] targets@[k]) >= best_val
                },
        decreases targets.len() - i,
    {
        let tid = targets[i];
        assert(targets@.contains(tid));
        let e = attached_energy_count_on(view, tid);
        if i == 0 {
            best_val = e;
            best_ids = Vec::new();
            best_ids.push(tid);
            assert(best_ids@ =~= seq![tid]);
            assert forall|x: CardInstanceId| best_ids@.contains(x) implies x == tid by {
                let k = choose|k: int| 0 <= k < best_ids@.len() && best_ids@[k] == x;
            }
            assert(forall|x: CardInstanceId| #[trigger] best_ids@.contains(x) ==> targets@.contains(x) && my_energy_count(*view, x) == best_val);
        } else {
            let better = if prefer_max {
                e > best_val
            } else {
                e < best_val
            };
            if better {
                best_val = e;
                best_ids = Vec::new();
                best_ids.push(tid);
                assert(best_ids@ =~= seq![tid]);
                assert forall|x: CardInstanceId| best_ids@.contains(x) implies x == tid by {
                    let k = choose|k: int| 0 <= k < best_ids@.len() && best_ids@[k] == x;
                }
                assert(forall|x: CardInstanceId| #[trigger] best_ids@.contains(x) ==> targets@.contains(x) && my_energy_count(*view, x) == best_val);
            } else if e == best_val {
                let ghost old_ids = best_ids@;
                best_ids.push(tid);
                assert forall|x: CardInstanceId| #[trigger] best_ids@.contains(x) implies targets@.contains(x)
                    && my_energy_count(*view, x) == best_val by {
                    let k = choose|k: int| 0 <= k < best_ids@.len() && best_ids@[k] == x;
                    if k < old_ids.len() {
                        assert(old_ids[k] == x);
                        assert(old_ids.contains(x));
                    } else {
                        assert(x == tid);
                    }
                }
                assert(forall|x: CardInstanceId| #[trigger] best_ids@.contains(x) ==> targets@.contains(x) && my_energy_count(*view, x) == best_val);
            }
        }
        i = i + 1;
    }
    let r = choose_one(rng, best_ids.as_slice());
    if let Some(t) = r {
        assert forall|u: CardInstanceId| targets@.contains(u) implies (if prefer_max {
            my_energy_count(*view, u) <= my_energy_count(*view, t)
        } else {
            my_energy_count(*view, u) >= my_energy_count(*view, t)
        }) by {
            let k = choose|k: int| 0 <= k < targets@.len() && targets@[k] == u;
        }
    }
    r
}

/// The targets that are not the given Pokémon, in their order.
pub open spec fn other_than(targets: Seq<CardInstanceId>, active: Option<CardInstanceId>) -> Seq<CardInstanceId>
    decreases targets.len(),
{
    if targets.len() == 0 {
        Seq::empty()
    } else {
        let rest = other_than(targets.drop_last(), active);
        if Some(targets.last()) != active {
            rest.push(targets.last())
        } else {
            rest
        }
    }
}

pub fn filter_other_than(targets: &[CardInstanceId], active: Option<CardInstanceId>) -> (r: Vec<CardInstanceId>)
    ensures
        r@ == other_than(targets@, active),
        forall|x: CardInstanceId| #[trigger] r@.contains(x) ==> targets@.contains(x),
{
    let mut out: Vec<CardInstanceId> = Vec::new();
    let mut i: usize = 0;
    while i < targets.len()
        invariant
            i <= targets.len(),
            out@ == other_than(targets@.take(i as int), active),
            forall|x: CardInstanceId| #[trigger] out@.contains(x) ==> targets@.contains(x),
        decreases targets.len() - i,
    {
        assert(targets@.take(i + 1).drop_last() =~= targets@.take(i as int));
        let ghost prev = out@;
        let t = targets[i];
        let keep = match active {
            Some(a) => t != a,
            None => true,
        };
        if keep {
            out.push(t);
            assert forall|x: CardInstanceId| #[trigger] out@.contains(x) implies targets@.contains(x) by {
                if x != t {
                    assert(prev.contains(x));
                } else {
                    assert(targets@[i as int] == t);
                }
            }
        }
        i = i + 1;
    }
    assert(targets@.take(targets.len() as int) =~= targets@);
    out
}

/// The identifier of our Active Pokémon, if any.
pub open spec fn active_id(view: GameView) -> Option<CardInstanceId> {
    match view.my_active {
        Some(a) => Some(a.card.id),
        None => None,
    }
}

pub fn my_active_id(view: &GameView) -> (r: Option<CardInstanceId>)
    ensures
        r == active_id(*view),
{
    match &view.my_active {
        Some(a) => Some(a.card.id),
        None => None,
    }
}

/// Where the second policy attaches energy. Able to attack already: the
/// benched target with the least energy (spreading out), else the Active
/// Pokémon. Not yet: the Active Pokémon, else the benched target with the most
/// energy. Any target, as a last resort.
pub open spec fn attach_target_ok(
    view: GameView,
    targets: Seq<CardInstanceId>,
    bench_first: bool,
    bench_prefers_max: bool,
    r: Option<CardInstanceId>,
) -> bool {
    let active = active_id(view);
    let bench = other_than(targets, active);
    let active_ok = active matches Some(a) && targets.contains(a);
    if targets.len() == 0 {
        r is None
    } else if bench_first && bench.len() > 0 {
        r matches Some(t) && extreme_energy(view, bench, bench_prefers_max, t)
    } else if active_ok {
        r == active
    } else if !bench_first && bench.len() > 0 {
        r matches Some(t) && extreme_energy(view, bench, bench_prefers_max, t)
    } else {
        r matches Some(t) && targets.contains(t)
    }
}

/// Chooses a Pokémon to attach energy to: benched ones first (with the most
/// energy when `bench_prefers_max`, else the least) when `bench_first`, the
/// Active Pokémon first otherwise.
pub fn choose_attach_target(
    rng: &mut ChaCha8Rng,
    view: &GameView,
    targets: &[CardInstanceId],
    bench_first: bool,
    bench_prefers_max: bool,
) -> (r: Option<CardInstanceId>)
    ensures
        attach_target_ok(*view, targets@, bench_first, bench_prefers_max, r),
{
    if targets.len() == 0 {
        return None;
    }
    let active = my_active_id(view);
    let bench = filter_other_than(targets, active);
    if bench_first {
        if let Some(t) = pick_target_by_energy(rng, view, bench.as_slice(), bench_prefers_max) {
            return Some(t);
        }
        if let Some(a) = active {
            if ids_contain(targets, a) {
                return Some(a);
            }
        }
    } else {
        if let Some(a) = active {
            if ids_contain(targets, a) {
                return Some(a);
            }
        }
        if let Some(t) = pick_target_by_energy(rng, view, bench.as_slice(), bench_prefers_max) {
            return Some(t);
        }
    }
    choose_one(rng, targets)
}

/// Whether to bench another basic: always below 3 benched, with the given
/// probability below 5, never at 5 or more.
pub fn should_play_basic_now(rng: &mut ChaCha8Rng, view: &GameView, numerator: u32, denominator: u32) -> (r: bool)
    requires
        0 < numerator < denominator,
    ensures
        view.my_bench@.len() < 3 ==> r,
        view.my_bench@.len() >= 5 ==> !r,
{
    let bench_n = view.my_bench.len();
    if bench_n < 3 {
        return true;
    }
    if bench_n < 5 {
        return gen_ratio(rng, numerator, denominator);
    }
    false
}

/// How much a card of the hand is worth giving up, before the random jitter:
/// cards that are neither playable basics nor playable energy go first, and
/// basics matter less once the bench holds 3 Pokémon.
pub open spec fn disposal_base(view: GameView, id: CardInstanceId) -> int {
    let h = view.action_hints;
    let basic = h.playable_basic_ids@.contains(id);
    let energy = h.playable_energy_ids@.contains(id);
    (if !basic {
        10int
    } else {
        -10int
    }) + (if !energy {
        6int
    } else {
        -6int
    }) + (if view.my_bench@.len() >= 3 && basic {
        4int
    } else {
        0int
    })
}

/// `p` is, among the positions not yet chosen, the earliest of highest score.
pub open spec fn is_first_best_unchosen(scores: Seq<int>, chosen: Seq<usize>, p: usize) -> bool {
    &&& p < scores.len()
    &&& !chosen.contains(p)
    &&& forall|q: int|
        0 <= q < scores.len() && !chosen.contains(q as usize) ==> scores[q] <= scores[p as int] && (
        scores[q] == scores[p as int] ==> p <= q)
}

/// `idx` lists positions in decreasing order of score, ties in the order
/// given: the first positions of a stable sort by decreasing score.
pub open spec fn is_stable_top(scores: Seq<int>, idx: Seq<usize>) -> bool {
    forall|t: int| 0 <= t < idx.len() ==> is_first_best_unchosen(scores, idx.take(t), #[trigger] idx[t])
}

/// The disposal score of each card of the pool, with the given jitters.
pub open spec fn disposal_scores(view: GameView, pool: Seq<CardInstanceId>, jitter: Seq<int>) -> Seq<int> {
    Seq::new(pool.len(), |i: int| disposal_base(view, pool[i]) + jitter[i])
}

/// `r` is the `take` most disposable cards of the pool (all, if fewer), each
/// score jittered by 0, 1 or 2 at random, most disposable first.
pub open spec fn disposable_pick_ok(view: GameView, pool: Seq<CardInstanceId>, take: int, r: Seq<CardInstanceId>) -> bool {
    exists|jitter: Seq<int>, idx: Seq<usize>|
        #![trigger disposal_scores(view, pool, jitter), idx.len()]
        jitter.len() == pool.len() && (forall|i: int| 0 <= i < jitter.len() ==> 0 <= #[trigger] jitter[i] < 3)
            && idx.len() == (if take < pool.len() {
            take
        } else {
            pool.len() as int
        }) && is_stable_top(disposal_scores(view, pool, jitter), idx) && r == idx.map_values(
            |i: usize| pool[i as int],
        )
}

fn disposal_base_exec(view: &GameView, id: CardInstanceId) -> (r: i32)
    ensures
        r == disposal_base(*view, id),
{
    let h = &view.action_hints;
    let basic = ids_contain(h.playable_basic_ids.as_slice(), id);
    let energy = ids_contain(h.playable_energy_ids.as_slice(), id);
    let mut s: i32 = 0;
    if !basic {
        s = s + 10;
    } else {
        s = s - 10;
    }
    if !energy {
        s = s + 6;
    } else {
        s = s - 6;
    }
    if view.my_bench.len() >= 3 && basic {
        s = s + 4;
    }
    s
}

/// The `take` cards of the pool most worth giving up.
pub fn pick_hand_cards_disposable(
    rng: &mut ChaCha8Rng,
    view: &GameView,
    pool: &[CardInstanceId],
    take: usize,
) -> (r: Vec<CardInstanceId>)
    ensures
        disposable_pick_ok(*view, pool@, take as int, r@),
{
    let n = pool.len();
    let mut scores: Vec<i32> = Vec::new();
    let ghost mut jitter: Seq<int> = Seq::empty();
    let mut i: usize = 0;
    while i < n
        invariant
            n == pool.len(),
            i <= n,
            scores@.len() == i,
            jitter.len() == i,
            forall|k: int| 0 <= k < i ==> 0 <= #[trigger] jitter[k] < 3,
            forall|k: int| 0 <= k < i ==> #[trigger] scores@[k] == disposal_base(*view, pool@[k]) + jitter[k],
        decreases n - i,
    {
        let base = disposal_base_exec(view, pool[i]);
        let j = gen_range_i32(rng, 0, 3);
        scores.push(base + j);
        proof {
            jitter = jitter.push(j as int);
        }
        i = i + 1;
    }
    let ghost sc = disposal_scores(*view, pool@, jitter);
    assert forall|k: int| 0 <= k < n implies scores@[k] == sc[k] by {}
    let count = min_usize(take, n);
    let mut chosen: Vec<bool> = Vec::new();
    let mut k: usize = 0;
    while k < n
        invariant
            k <= n,
            chosen@.len() == k,
            forall|q: int| 0 <= q < k ==> !chosen@[q],
        decreases n - k,
    {
        chosen.push(false);
        k = k + 1;
    }
    let mut idx: Vec<usize> = Vec::new();
    let mut t: usize = 0;
    while t < count
        invariant
            n == pool.len(),
            count <= n,
            t <= count,
            scores@.len() == n,
            sc.len() == n,
            forall|q: int| 0 <= q < n ==> #[trigger] scores@[q] == sc[q],
            chosen@.len() == n,
            idx@.len() == t,
            forall|q: int| 0 <= q < n ==> (chosen@[q] <==> idx@.contains(q as usize)),
            forall|q: int| 0 <= q < t ==> idx@[q] < n,
            is_stable_top(sc, idx@),
        decreases count - t,
    {
        // The earliest unchosen position of highest score; one exists since t < n.
        let mut best: usize = n;
        let mut p: usize = 0;
        while p < n
            invariant
                n == pool.len(),
                p <= n,
                scores@.len() == n,
                chosen@.len() == n,
                forall|q: int| 0 <= q < n ==> #[trigger] scores@[q] == sc[q],
                best == n || (best < p && !chosen@[best as int]),
                best == n ==> forall|q: int| 0 <= q < p ==> chosen@[q],
                best < n ==> forall|q: int|
                    0 <= q < p && !chosen@[q] ==> sc[q] <= sc[best as int] && (sc[q] == sc[best as int] ==> best <= q),
            decreases n - p,
        {
            if !chosen[p] {
                if best == n || scores[p] > scores[best] {
                    best = p;
                }
            }
            p = p + 1;
        }
        if best == n {
            // every position is chosen, yet fewer than n were: impossible
            assert forall|q: usize| (q as int) < n implies #[trigger] idx@.contains(q) by {
                assert(chosen@[q as int]);
            }
            proof {
                lemma_listing_needs_length(idx@, n as int);
            }
        }
        assert(is_first_best_unchosen(sc, idx@, best));
        let ghost prev = idx@;
        idx.push(best);
        chosen.set(best, true);
        assert(idx@.take(t as int) =~= prev);
        assert forall|u: int| 0 <= u < idx@.len() implies is_first_best_unchosen(sc, idx@.take(u), #[trigger] idx@[u]) by {
            if u < t {
                assert(idx@.take(u) =~= prev.take(u));
            }
        }
        assert forall|q: int| 0 <= q < n implies (chosen@[q] <==> idx@.contains(q as usize)) by {
            if q == best as int {
                assert(idx@[t as int] == best);
            } else {
                if prev.contains(q as usize) {
                    let w = choose|w: int| 0 <= w < prev.len() && prev[w] == q as usize;
                    assert(idx@[w] == q as usize);
                }
                if idx@.contains(q as usize) {
                    let w = choose|w: int| 0 <= w < idx@.len() && idx@[w] == q as usize;
                    assert(w < t);
                    assert(prev[w] == q as usize);
                }
            }
        }
        t = t + 1;
    }
    let mut out: Vec<CardInstanceId> = Vec::new();
    let mut u: usize = 0;
    while u < count
        invariant
            n == pool.len(),
            count <= n,
            idx@.len() == count,
            forall|q: int| 0 <= q < count ==> idx@[q] < n,
            u <= count,
            out@ == idx@.take(u as int).map_values(|i: usize| pool@[i as int]),
        decreases count - u,
    {
        out.push(pool[idx[u]]);
        u = u + 1;
        assert(out@ =~= idx@.take(u as int).map_values(|i: usize| pool@[i as int]));
    }
    assert(idx@.take(count as int) =~= idx@);
    assert(jitter.len() == pool@.len() && (forall|i: int| 0 <= i < jitter.len() ==> 0 <= #[trigger] jitter[i] < 3)
        && idx@.len() == (if take < pool@.len() { take as int } else { pool@.len() as int })
        && is_stable_top(disposal_scores(*view, pool@, jitter), idx@)
        && out@ == idx@.map_values(|i: usize| pool@[i as int]));
    out
}

/// A list holding every position below `n` has at least `n` items.
proof fn lemma_listing_needs_length(idx: Seq<usize>, n: int)
    requires
        0 <= n <= usize::MAX,
        forall|q: usize| (q as int) < n ==> #[trigger] idx.contains(q),
    ensures
        idx.len() >= n,
{
    let range = Seq::new(n as nat, |q: int| q as usize);
    assert forall|i: int, j: int| 0 <= i < range.len() && 0 <= j < range.len() && i != j implies range[i] != range[j] by {}
    assert(range.no_duplicates());
    assert forall|x: usize| #[trigger] range.contains(x) implies idx.contains(x) by {
        let q = choose|q: int| 0 <= q < range.len() && range[q] == x;
        assert(range[q] == q as usize);
    }
    range.unique_seq_to_set();
    assert(range.to_set().subset_of(idx.to_set()));
    idx.lemma_cardinality_of_set();
    vstd::seq_lib::seq_to_set_is_finite(idx);
    vstd::set_lib::lemma_len_subset(range.to_set(), idx.to_set());
}

} // verus!
