//! Candidate lists: answers to a prompt in the order a policy would have them
//! tried, built from picks, attacks, names and identifiers.
use crate::ai_common::{is_index_permutation, named_attack, named_attack_spec, shuffled_indices};
use crate::model::{
    Action, Attack, AttackSpec, CardInstanceId, SpecialCondition, attack_views, copy_attack,
};
use crate::text::{seq_less, str_less};
use crate::ai_common::scan_best;
use rand_chacha::ChaCha8Rng;
use vstd::prelude::*;

verus! {

broadcast use vstd::seq_lib::group_to_multiset_ensures;

pub proof fn lemma_index_permutation_bound(perm: Seq<usize>, n: int, i: int)
    requires
        is_index_permutation(perm, n),
        0 <= i < perm.len(),
    ensures
        perm[i] < n,
{
    let range = Seq::new(n as nat, |j: int| j as usize);
    assert(perm.contains(perm[i]));
    assert(perm.to_multiset().count(perm[i]) > 0);
    assert(range.contains(perm[i]));
    let j = choose|j: int| 0 <= j < range.len() && range[j] == perm[i];
    assert(range[j] == j as usize);
}

/// The kinds of answer that carry a list of chosen cards.
#[derive(Clone, Copy, Debug, PartialEq, Eq, Structural)]
pub enum Pick {
    Bench,
    FromDeck,
    FromDiscard,
    PokemonTargets,
    Reorder,
    AttachedEnergy,
    ReturnToDeck,
    DiscardFromHand,
    CardsInPlay,
    PrizeCards,
}

/// The cards an answer of the given kind carries; `None` for an answer of another kind.
pub open spec fn picked_by(kind: Pick, a: Action) -> Option<Seq<CardInstanceId>> {
    match (kind, a) {
        (Pick::Bench, Action::ChooseBench { card_ids }) => Some(card_ids@),
        (Pick::FromDeck, Action::TakeCardsFromDeck { card_ids }) => Some(card_ids@),
        (Pick::FromDiscard, Action::TakeCardsFromDiscard { card_ids }) => Some(card_ids@),
        (Pick::PokemonTargets, Action::ChoosePokemonTargets { target_ids }) => Some(target_ids@),
        (Pick::Reorder, Action::ReorderDeckTop { card_ids }) => Some(card_ids@),
        (Pick::AttachedEnergy, Action::ChooseAttachedEnergy { energy_ids }) => Some(energy_ids@),
        (Pick::ReturnToDeck, Action::ReturnCardsFromHandToDeck { card_ids }) => Some(card_ids@),
        (Pick::DiscardFromHand, Action::DiscardCardsFromHand { card_ids }) => Some(card_ids@),
        (Pick::CardsInPlay, Action::ChooseCardsInPlay { card_ids }) => Some(card_ids@),
        (Pick::PrizeCards, Action::ChoosePrizeCards { card_ids }) => Some(card_ids@),
        _ => None,
    }
}

pub fn pick_action(kind: Pick, ids: Vec<CardInstanceId>) -> (a: Action)
    ensures
        picked_by(kind, a) == Some(ids@),
{
    match kind {
        Pick::Bench => Action::ChooseBench { card_ids: ids },
        Pick::FromDeck => Action::TakeCardsFromDeck { card_ids: ids },
        Pick::FromDiscard => Action::TakeCardsFromDiscard { card_ids: ids },
        Pick::PokemonTargets => Action::ChoosePokemonTargets { target_ids: ids },
        Pick::Reorder => Action::ReorderDeckTop { card_ids: ids },
        Pick::AttachedEnergy => Action::ChooseAttachedEnergy { energy_ids: ids },
        Pick::ReturnToDeck => Action::ReturnCardsFromHandToDeck { card_ids: ids },
        Pick::DiscardFromHand => Action::DiscardCardsFromHand { card_ids: ids },
        Pick::CardsInPlay => Action::ChooseCardsInPlay { card_ids: ids },
        Pick::PrizeCards => Action::ChoosePrizeCards { card_ids: ids },
    }
}

/// The attack an answer declares; `None` for another kind of answer.
pub open spec fn declared(a: Action) -> Option<AttackSpec> {
    match a {
        Action::DeclareAttack { attack } => Some(attack@),
        _ => None,
    }
}

/// `r` declares the attack `views[best]` first, then every attack once, in random order.
pub open spec fn attacks_best_then_shuffled(views: Seq<AttackSpec>, best: int, r: Seq<Action>) -> bool {
    &&& r.len() == views.len() + 1
    &&& declared(r[0]) == Some(views[best])
    &&& exists|perm: Seq<usize>|
        #![trigger is_index_permutation(perm, views.len() as int)]
        is_index_permutation(perm, views.len() as int) && forall|j: int|
            1 <= j <= views.len() ==> declared(#[trigger] r[j]) == Some(views[perm[j - 1] as int])
}

pub fn declare_best_then_shuffled(rng: &mut ChaCha8Rng, attacks: &[Attack], best: usize) -> (r: Vec<
    Action,
>)
    requires
        best < attacks.len(),
    ensures
        attacks_best_then_shuffled(attack_views(attacks@), best as int, r@),
{
    let ghost views = attack_views(attacks@);
    let n = attacks.len();
    let mut out: Vec<Action> = Vec::new();
    out.push(Action::DeclareAttack { attack: copy_attack(&attacks[best]) });
    let perm = shuffled_indices(rng, n);
    let mut i: usize = 0;
    while i < n
        invariant
            n == attacks.len(),
            views == attack_views(attacks@),
            is_index_permutation(perm@, n as int),
            i <= n,
            out@.len() == i + 1,
            declared(out@[0]) == Some(views[best as int]),
            forall|j: int| 1 <= j <= i ==> declared(#[trigger] out@[j]) == Some(views[perm@[j - 1] as int]),
        decreases n - i,
    {
        proof {
            lemma_index_permutation_bound(perm@, n as int, i as int);
        }
        let k = perm[i];
        out.push(Action::DeclareAttack { attack: copy_attack(&attacks[k]) });
        i = i + 1;
    }
    out
}

/// The views of a list of names.
pub open spec fn name_views(names: Seq<String>) -> Seq<Seq<char>> {
    names.map_values(|s: String| s@)
}

/// The greater name wins; equal names leave the later one.
pub open spec fn pref_name() -> spec_fn(Seq<char>, Seq<char>) -> bool {
    |x: Seq<char>, y: Seq<char>| seq_less(y, x)
}

/// The position of the greatest name, as `Iterator::max` finds it.
pub open spec fn max_name_index(names: Seq<Seq<char>>) -> int {
    scan_best(names, pref_name())
}

pub fn max_name(names: &[String]) -> (r: Option<usize>)
    ensures
        r is None <==> names@.len() == 0,
        r matches Some(i) ==> i == max_name_index(name_views(names@)) && i < names@.len(),
{
    if names.len() == 0 {
        return None;
    }
    let ghost v = name_views(names@);
    let mut best: usize = 0;
    let mut i: usize = 1;
    while i < names.len()
        invariant
            v == name_views(names@),
            1 <= i <= names.len(),
            best == scan_best(v.take(i as int), pref_name()),
            best < i,
        decreases names.len() - i,
    {
        proof {
            crate::ai_common::lemma_scan_best_step(v, pref_name(), i as int);
        }
        if !str_less(names[i].as_str(), names[best].as_str()) {
            best = i;
        }
        i = i + 1;
    }
    assert(v.take(names.len() as int) =~= v);
    Some(best)
}

/// The name of the attack an answer chooses; `None` for another kind of answer.
pub open spec fn chosen_attack_name(a: Action) -> Option<Seq<char>> {
    match a {
        Action::ChoosePokemonAttack { attack_name } => Some(attack_name@),
        _ => None,
    }
}

/// The name an answer carries: as a declared attack called so, or as a chosen attack name.
pub open spec fn answer_name(a: Action, declare: bool) -> Option<Seq<char>> {
    if declare {
        match declared(a) {
            Some(s) => if s == named_attack_spec(s.name) {
                Some(s.name)
            } else {
                None
            },
            None => None,
        }
    } else {
        chosen_attack_name(a)
    }
}

/// `r` names the greatest name first, then every name once, in random order.
pub open spec fn names_best_then_shuffled(names: Seq<Seq<char>>, declare: bool, r: Seq<Action>) -> bool {
    if names.len() == 0 {
        r.len() == 0
    } else {
        &&& r.len() == names.len() + 1
        &&& answer_name(r[0], declare) == Some(names[max_name_index(names)])
        &&& exists|perm: Seq<usize>|
            #![trigger is_index_permutation(perm, names.len() as int)]
            is_index_permutation(perm, names.len() as int) && forall|j: int|
                1 <= j <= names.len() ==> answer_name(#[trigger] r[j], declare) == Some(
                    names[perm[j - 1] as int],
                )
    }
}

fn name_answer(name: String, declare: bool) -> (a: Action)
    ensures
        answer_name(a, declare) == Some(name@),
{
    if declare {
        Action::DeclareAttack { attack: named_attack(name) }
    } else {
        Action::ChoosePokemonAttack { attack_name: name }
    }
}

pub fn names_then_shuffled(rng: &mut ChaCha8Rng, names: &[String], declare: bool) -> (r: Vec<Action>)
    ensures
        names_best_then_shuffled(name_views(names@), declare, r@),
{
    let ghost v = name_views(names@);
    let mut out: Vec<Action> = Vec::new();
    let n = names.len();
    match max_name(names) {
        None => {
            return out;
        },
        Some(b) => {
            out.push(name_answer(names[b].clone(), declare));
        },
    }
    let perm = shuffled_indices(rng, n);
    let mut i: usize = 0;
    while i < n
        invariant
            n == names.len(),
            n > 0,
            v == name_views(names@),
            is_index_permutation(perm@, n as int),
            i <= n,
            out@.len() == i + 1,
            answer_name(out@[0], declare) == Some(v[max_name_index(v)]),
            forall|j: int|
                1 <= j <= i ==> answer_name(#[trigger] out@[j], declare) == Some(v[perm@[j - 1] as int]),
        decreases n - i,
    {
        proof {
            lemma_index_permutation_bound(perm@, n as int, i as int);
        }
        let k = perm[i];
        out.push(name_answer(names[k].clone(), declare));
        i = i + 1;
    }
    out
}

/// `r` chooses `first` (when given) and then every condition once, in random order.
pub open spec fn conditions_first_then_shuffled(options: Seq<SpecialCondition>, r: Seq<Action>) -> bool {
    if options.len() == 0 {
        r.len() == 0
    } else {
        &&& r.len() == options.len() + 1
        &&& r[0] == (Action::ChooseSpecialCondition { condition: options[0] })
        &&& exists|perm: Seq<usize>|
            #![trigger is_index_permutation(perm, options.len() as int)]
            is_index_permutation(perm, options.len() as int) && forall|j: int|
                1 <= j <= options.len() ==> #[trigger] r[j] == (Action::ChooseSpecialCondition {
                    condition: options[perm[j - 1] as int],
                })
    }
}

pub fn conditions_then_shuffled(rng: &mut ChaCha8Rng, options: &[SpecialCondition]) -> (r: Vec<Action>)
    ensures
        conditions_first_then_shuffled(options@, r@),
{
    let mut out: Vec<Action> = Vec::new();
    let n = options.len();
    if n == 0 {
        return out;
    }
    out.push(Action::ChooseSpecialCondition { condition: options[0] });
    let perm = shuffled_indices(rng, n);
    let mut i: usize = 0;
    while i < n
        invariant
            n == options.len(),
            n > 0,
            is_index_permutation(perm@, n as int),
            i <= n,
            out@.len() == i + 1,
            out@[0] == (Action::ChooseSpecialCondition { condition: options@[0] }),
            forall|j: int|
                1 <= j <= i ==> #[trigger] out@[j] == (Action::ChooseSpecialCondition {
                    condition: options@[perm@[j - 1] as int],
                }),
        decreases n - i,
    {
        proof {
            lemma_index_permutation_bound(perm@, n as int, i as int);
        }
        let k = perm[i];
        out.push(Action::ChooseSpecialCondition { condition: options[k] });
        i = i + 1;
    }
    out
}

/// The Pokémon an answer puts forward as Active: at setup (`starting`) or as
/// a replacement; `None` for another kind of answer.
pub open spec fn active_choice(a: Action, starting: bool) -> Option<CardInstanceId> {
    match a {
        Action::ChooseActive { card_id } => if starting {
            Some(card_id)
        } else {
            None
        },
        Action::ChooseNewActive { card_id } => if starting {
            None
        } else {
            Some(card_id)
        },
        _ => None,
    }
}

fn active_answer(card_id: CardInstanceId, starting: bool) -> (a: Action)
    ensures
        active_choice(a, starting) == Some(card_id),
{
    if starting {
        Action::ChooseActive { card_id }
    } else {
        Action::ChooseNewActive { card_id }
    }
}

/// `r` puts `first` forward (when given), then every candidate once, in random order.
pub open spec fn ids_first_then_shuffled(
    first: Option<CardInstanceId>,
    cands: Seq<CardInstanceId>,
    starting: bool,
    r: Seq<Action>,
) -> bool {
    let nf: int = if first is Some {
        1
    } else {
        0
    };
    &&& r.len() == nf + cands.len()
    &&& first matches Some(f) ==> active_choice(r[0], starting) == Some(f)
    &&& exists|perm: Seq<usize>|
        #![trigger is_index_permutation(perm, cands.len() as int)]
        is_index_permutation(perm, cands.len() as int) && forall|j: int|
            0 <= j < cands.len() ==> active_choice(#[trigger] r[nf + j], starting) == Some(
                cands[perm[j] as int],
            )
}

pub fn ids_then_shuffled(
    rng: &mut ChaCha8Rng,
    first: Option<CardInstanceId>,
    cands: &[CardInstanceId],
    starting: bool,
) -> (r: Vec<Action>)
    ensures
        ids_first_then_shuffled(first, cands@, starting, r@),
{
    let mut out: Vec<Action> = Vec::new();
    let nf: usize = match first {
        Some(f) => {
            out.push(active_answer(f, starting));
            1
        },
        None => 0,
    };
    let n = cands.len();
    let perm = shuffled_indices(rng, n);
    let mut i: usize = 0;
    while i < n
        invariant
            n == cands.len(),
            nf == (if first is Some { 1int } else { 0int }),
            is_index_permutation(perm@, n as int),
            i <= n,
            out@.len() == nf + i,
            first matches Some(f) ==> active_choice(out@[0], starting) == Some(f),
            forall|j: int|
                0 <= j < i ==> active_choice(#[trigger] out@[nf + j], starting) == Some(
                    cands@[perm@[j] as int],
                ),
        decreases n - i,
    {
        proof {
            lemma_index_permutation_bound(perm@, n as int, i as int);
        }
        let k = perm[i];
        out.push(active_answer(cands[k], starting));
        assert(active_choice(out@[nf + i as int], starting) == Some(cands@[perm@[i as int] as int]));
        i = i + 1;
    }
    out
}

} // verus!
