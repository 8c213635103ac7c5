//! What the agent is shown and what it answers: the labels of the actions
//! open to it, the shape of a pending prompt, and the card identifier read
//! back out of its JSON-like answer.
use crate::model::{
    Attack, CardInstanceId, GameView, Phase, PlayerId, Prompt, Type, attack_views, copy_attack,
};
use crate::registry::{CardMetaMap, CardMetaSpec};
use crate::text::{chars_find, chars_of, has_infix, occurs_at};
use vstd::prelude::*;

verus! {

/// Whether `c` is white space in Unicode's sense (the `White_Space` property,
/// which `char::is_whitespace` tests).
pub open spec fn is_white_space(c: char) -> bool {
    let u = c as u32;
    (0x09 <= u <= 0x0d) || u == 0x20 || u == 0x85 || u == 0xa0 || u == 0x1680 || (0x2000 <= u
        <= 0x200a) || u == 0x2028 || u == 0x2029 || u == 0x202f || u == 0x205f || u == 0x3000
}

pub fn is_whitespace_char(c: char) -> (r: bool)
    ensures
        r == is_white_space(c),
{
    let u = c as u32;
    (0x09 <= u && u <= 0x0d) || u == 0x20 || u == 0x85 || u == 0xa0 || u == 0x1680 || (0x2000 <= u
        && u <= 0x200a) || u == 0x2028 || u == 0x2029 || u == 0x202f || u == 0x205f || u == 0x3000
}

/// Whether `c` is one of the ASCII digits '0' to '9'.
pub open spec fn is_digit(c: char) -> bool {
    '0' <= c <= '9'
}

/// The number of leading characters of `s` that satisfy `p`.
pub open spec fn leading_count(s: Seq<char>, p: spec_fn(char) -> bool) -> int
    decreases s.len(),
{
    if s.len() == 0 || !p(s[0]) {
        0
    } else {
        1 + leading_count(s.skip(1), p)
    }
}

/// The value of a string of decimal digits.
pub open spec fn decimal_value(digits: Seq<char>) -> nat
    decreases digits.len(),
{
    if digits.len() == 0 {
        0
    } else {
        decimal_value(digits.drop_last()) * 10 + (digits.last() as nat - '0' as nat) as nat
    }
}

/// The first position at which `p` occurs in `s` (meaningful when it occurs).
pub open spec fn first_occurrence(s: Seq<char>, p: Seq<char>) -> int {
    choose|i: int| occurs_at(s, p, i) && forall|j: int| 0 <= j < i ==> !occurs_at(s, p, j)
}

/// What follows the first `"card_id"` and the first colon after it, leading
/// white space skipped; `None` when either is missing.
pub open spec fn card_id_field(text: Seq<char>) -> Option<Seq<char>> {
    let key = "\"card_id\""@;
    if !has_infix(text, key) {
        None
    } else {
        let after = text.skip(first_occurrence(text, key) + key.len());
        if !has_infix(after, seq![':']) {
            None
        } else {
            let rest = after.skip(first_occurrence(after, seq![':']) + 1);
            Some(rest.skip(leading_count(rest, |c: char| is_white_space(c))))
        }
    }
}

/// The card identifier in an answer such as `{"card_id": 17}`: the decimal
/// digits that follow the field's colon (after white space and an optional
/// opening quote). `None` when the field, the colon or the digits are
/// missing, or when the number does not fit in 64 bits. White space at the
/// end of the text cannot change the digits read.
pub open spec fn extract_card_id_spec(text: Seq<char>) -> Option<u64> {
    match card_id_field(text) {
        None => None,
        Some(field) => {
            let rest = if field.len() > 0 && field[0] == '"' {
                field.skip(1)
            } else {
                field
            };
            let digits = rest.take(leading_count(rest, |c: char| is_digit(c)));
            if digits.len() == 0 || decimal_value(digits) > u64::MAX {
                None
            } else {
                Some(decimal_value(digits) as u64)
            }
        },
    }
}

proof fn lemma_leading_count_bounds(s: Seq<char>, p: spec_fn(char) -> bool)
    ensures
        0 <= leading_count(s, p) <= s.len(),
        forall|i: int| 0 <= i < leading_count(s, p) ==> p(#[trigger] s[i]),
        leading_count(s, p) < s.len() ==> !p(s[leading_count(s, p)]),
    decreases s.len(),
{
    if s.len() > 0 && p(s[0]) {
        lemma_leading_count_bounds(s.skip(1), p);
        assert forall|i: int| 0 <= i < leading_count(s, p) implies p(#[trigger] s[i]) by {
            if i > 0 {
                assert(s[i] == s.skip(1)[i - 1]);
            }
        }
    }
}

/// The leading count is the first position whose character fails `p`.
proof fn lemma_leading_count_is(s: Seq<char>, p: spec_fn(char) -> bool, k: int)
    requires
        0 <= k <= s.len(),
        forall|i: int| 0 <= i < k ==> p(#[trigger] s[i]),
        k < s.len() ==> !p(s[k]),
    ensures
        leading_count(s, p) == k,
    decreases s.len(),
{
    if k > 0 {
        assert forall|i: int| 0 <= i < k - 1 implies p(#[trigger] s.skip(1)[i]) by {
            assert(s.skip(1)[i] == s[i + 1]);
        }
        if k - 1 < s.skip(1).len() {
            assert(s.skip(1)[k - 1] == s[k]);
        }
        lemma_leading_count_is(s.skip(1), p, k - 1);
    }
}

/// How many of the leading characters are white space.
fn leading_white_space(s: &[char], from: usize) -> (r: usize)
    requires
        from <= s@.len(),
    ensures
        from <= r <= s@.len(),
        r - from == leading_count(s@.skip(from as int), |c: char| is_white_space(c)),
{
    let mut i = from;
    while i < s.len() && is_whitespace_char(s[i])
        invariant
            from <= i <= s@.len(),
            forall|j: int| from <= j < i ==> is_white_space(s@[j]),
        decreases s.len() - i,
    {
        i = i + 1;
    }
    proof {
        let t = s@.skip(from as int);
        assert forall|j: int| 0 <= j < i - from implies (|c: char| is_white_space(c))(#[trigger] t[j]) by {
            assert(t[j] == s@[from + j]);
        }
        if i - from < t.len() {
            assert(t[i - from] == s@[i as int]);
        }
        lemma_leading_count_is(t, |c: char| is_white_space(c), i - from);
    }
    i
}

/// The prefixes' values grow with their length.
proof fn lemma_decimal_value_monotone(digits: Seq<char>, i: int)
    requires
        0 <= i <= digits.len(),
        forall|k: int| 0 <= k < digits.len() ==> is_digit(#[trigger] digits[k]),
    ensures
        decimal_value(digits.take(i)) <= decimal_value(digits),
    decreases digits.len() - i,
{
    if i < digits.len() {
        lemma_decimal_value_monotone(digits, i + 1);
        assert(digits.take(i + 1).drop_last() =~= digits.take(i));
    } else {
        assert(digits.take(i) =~= digits);
    }
}

/// The value of a string of ASCII digits, `None` when it does not fit in 64 bits.
fn parse_decimal(digits: &[char]) -> (r: Option<u64>)
    requires
        forall|k: int| 0 <= k < digits@.len() ==> is_digit(#[trigger] digits@[k]),
    ensures
        r matches Some(v) ==> v == decimal_value(digits@),
        r is None ==> decimal_value(digits@) > u64::MAX,
{
    let mut value: u64 = 0;
    let mut i: usize = 0;
    while i < digits.len()
        invariant
            i <= digits@.len(),
            forall|k: int| 0 <= k < digits@.len() ==> is_digit(#[trigger] digits@[k]),
            value == decimal_value(digits@.take(i as int)),
        decreases digits.len() - i,
    {
        let d = (digits[i] as u32 - '0' as u32) as u64;
        assert(digits@.take(i + 1).drop_last() =~= digits@.take(i as int));
        assert(digits@.take(i + 1).last() == digits@[i as int]);
        match value.checked_mul(10) {
            Some(m) => match m.checked_add(d) {
                Some(v) => {
                    value = v;
                },
                None => {
                    proof {
                        lemma_decimal_value_monotone(digits@, i + 1);
                    }
                    return None;
                },
            },
            None => {
                proof {
                    lemma_decimal_value_monotone(digits@, i + 1);
                }
                return None;
            },
        }
        i = i + 1;
    }
    assert(digits@.take(digits@.len() as int) =~= digits@);
    Some(value)
}

/// Reads the card identifier out of an answer such as `{"card_id": 17}`.
pub fn extract_card_id(text: &str) -> (r: Option<CardInstanceId>)
    ensures
        r == match extract_card_id_spec(text@) {
            Some(v) => Some(CardInstanceId { id: v }),
            None => None,
        },
{
    let chars = chars_of(text);
    let n = chars.len();
    let key = chars_of("\"card_id\"");
    let start = match chars_find(chars.as_slice(), key.as_slice()) {
        Some(s) => s,
        None => {
            return None;
        },
    };
    proof {
        assert(start as int == first_occurrence(text@, key@)) by {
            let f = first_occurrence(text@, key@);
            if f < start {
            } else if f > start {
            }
        }
    }
    let after_at = start + key.len();
    let mut colon_key: Vec<char> = Vec::new();
    colon_key.push(':');
    assert(colon_key@ =~= seq![':']);
    let ghost after = text@.skip(after_at as int);
    let after_chars = slice_from(chars.as_slice(), after_at);
    assert(after_chars@.len() == n - after_at);
    let colon = match chars_find(after_chars.as_slice(), colon_key.as_slice()) {
        Some(c) => c,
        None => {
            return None;
        },
    };
    proof {
        assert(colon as int == first_occurrence(after, seq![':'])) by {
            let f = first_occurrence(after, seq![':']);
            if f < colon {
            } else if f > colon {
            }
        }
    }
    let rest_at = after_at + colon + 1;
    let ghost rest = after.skip(colon + 1);
    assert(rest =~= text@.skip(rest_at as int));
    let field_at = leading_white_space(chars.as_slice(), rest_at);
    let ghost field = rest.skip(field_at - rest_at);
    assert(field =~= text@.skip(field_at as int));
    let digits_at = if field_at < chars.len() && chars[field_at] == '"' {
        field_at + 1
    } else {
        field_at
    };
    let ghost unquoted = text@.skip(digits_at as int);
    let mut end = digits_at;
    while end < chars.len() && '0' <= chars[end] && chars[end] <= '9'
        invariant
            digits_at <= end <= chars@.len(),
            chars@ == text@,
            forall|j: int| digits_at <= j < end ==> is_digit(chars@[j]),
        decreases chars.len() - end,
    {
        end = end + 1;
    }
    proof {
        assert forall|j: int| 0 <= j < end - digits_at implies (|c: char| is_digit(c))(#[trigger] unquoted[j]) by {
            assert(unquoted[j] == text@[digits_at + j]);
        }
        if end - digits_at < unquoted.len() {
            assert(unquoted[end - digits_at] == text@[end as int]);
        }
        lemma_leading_count_is(unquoted, |c: char| is_digit(c), end - digits_at);
        if field.len() > 0 && field[0] == '"' {
            assert(field.skip(1) =~= unquoted);
        } else {
            assert(field =~= unquoted);
        }
    }
    if end == digits_at {
        return None;
    }
    let digits = slice_range(chars.as_slice(), digits_at, end);
    assert(digits@ =~= unquoted.take(end - digits_at));
    match parse_decimal(digits.as_slice()) {
        Some(v) => Some(CardInstanceId::new(v)),
        None => None,
    }
}

/// The characters of `s` from position `from` on.
fn slice_from(s: &[char], from: usize) -> (r: Vec<char>)
    requires
        from <= s@.len(),
    ensures
        r@ == s@.skip(from as int),
{
    slice_range(s, from, s.len())
}

/// The characters of `s` from position `from` up to `to`.
fn slice_range(s: &[char], from: usize, to: usize) -> (r: Vec<char>)
    requires
        from <= to <= s@.len(),
    ensures
        r@ == s@.subrange(from as int, to as int),
{
    let mut out: Vec<char> = Vec::new();
    let mut i = from;
    while i < to
        invariant
            from <= i <= to <= s@.len(),
            out@ == s@.subrange(from as int, i as int),
        decreases to - i,
    {
        out.push(s[i]);
        i = i + 1;
        assert(out@ =~= s@.subrange(from as int, i as int));
    }
    out
}

/// The kind of action an answer to the prompt takes.
pub open spec fn prompt_action_label(prompt: Prompt) -> Seq<char> {
    match prompt {
        Prompt::ChooseStartingActive { .. } => "ChooseActive"@,
        Prompt::ChooseNewActive { .. } => "ChooseActive"@,
        Prompt::ChooseBenchBasics { .. } => "ChooseBench"@,
        Prompt::ChooseAttack { .. } => "DeclareAttack"@,
        Prompt::ChooseDefenderAttack { .. } => "DeclareAttack"@,
        Prompt::ChoosePokemonAttack { .. } => "DeclareAttack"@,
        Prompt::ChooseAttachedEnergy { .. } => "ChooseAttachedEnergy"@,
        Prompt::ChooseCardsFromDeck { .. } => "ChooseCardsFromDeck"@,
        Prompt::ChooseCardsFromDiscard { .. } => "ChooseCardsFromDiscard"@,
        Prompt::ChooseCardsFromHand { .. } => "ChooseCardsFromHand"@,
        Prompt::ChooseCardsInPlay { .. } => "ChooseCardsInPlay"@,
        Prompt::ChoosePokemonInPlay { .. } => "ChoosePokemonInPlay"@,
        Prompt::ReorderDeckTop { .. } => "ReorderDeckTop"@,
        Prompt::ChooseSpecialCondition { .. } => "ChooseSpecialCondition"@,
        Prompt::ChoosePrizeCards { .. } => "ChoosePrizeCards"@,
        _ => "UnknownPrompt"@,
    }
}

pub fn prompt_action_type(prompt: &Prompt) -> (r: String)
    ensures
        r@ == prompt_action_label(*prompt),
{
    match prompt {
        Prompt::ChooseStartingActive { .. } => "ChooseActive".to_owned(),
        Prompt::ChooseNewActive { .. } => "ChooseActive".to_owned(),
        Prompt::ChooseBenchBasics { .. } => "ChooseBench".to_owned(),
        Prompt::ChooseAttack { .. } => "DeclareAttack".to_owned(),
        Prompt::ChooseDefenderAttack { .. } => "DeclareAttack".to_owned(),
        Prompt::ChoosePokemonAttack { .. } => "DeclareAttack".to_owned(),
        Prompt::ChooseAttachedEnergy { .. } => "ChooseAttachedEnergy".to_owned(),
        Prompt::ChooseCardsFromDeck { .. } => "ChooseCardsFromDeck".to_owned(),
        Prompt::ChooseCardsFromDiscard { .. } => "ChooseCardsFromDiscard".to_owned(),
        Prompt::ChooseCardsFromHand { .. } => "ChooseCardsFromHand".to_owned(),
        Prompt::ChooseCardsInPlay { .. } => "ChooseCardsInPlay".to_owned(),
        Prompt::ChoosePokemonInPlay { .. } => "ChoosePokemonInPlay".to_owned(),
        Prompt::ReorderDeckTop { .. } => "ReorderDeckTop".to_owned(),
        Prompt::ChooseSpecialCondition { .. } => "ChooseSpecialCondition".to_owned(),
        Prompt::ChoosePrizeCards { .. } => "ChoosePrizeCards".to_owned(),
        _ => "UnknownPrompt".to_owned(),
    }
}

/// The name of the prompt's kind.
pub open spec fn prompt_kind_label(prompt: Prompt) -> Seq<char> {
    match prompt {
        Prompt::ChooseStartingActive { .. } => "ChooseStartingActive"@,
        Prompt::ChooseBenchBasics { .. } => "ChooseBenchBasics"@,
        Prompt::ChooseAttack { .. } => "ChooseAttack"@,
        Prompt::ChooseCardsFromDeck { .. } => "ChooseCardsFromDeck"@,
        Prompt::ChooseCardsFromDiscard { .. } => "ChooseCardsFromDiscard"@,
        Prompt::ChoosePokemonInPlay { .. } => "ChoosePokemonInPlay"@,
        Prompt::ReorderDeckTop { .. } => "ReorderDeckTop"@,
        Prompt::ChooseAttachedEnergy { .. } => "ChooseAttachedEnergy"@,
        Prompt::ChooseCardsFromHand { .. } => "ChooseCardsFromHand"@,
        Prompt::ChooseCardsInPlay { .. } => "ChooseCardsInPlay"@,
        Prompt::ChoosePrizeCards { .. } => "ChoosePrizeCards"@,
        Prompt::ChooseDefenderAttack { .. } => "ChooseDefenderAttack"@,
        Prompt::ChoosePokemonAttack { .. } => "ChoosePokemonAttack"@,
        Prompt::ChooseSpecialCondition { .. } => "ChooseSpecialCondition"@,
        Prompt::ChooseNewActive { .. } => "ChooseNewActive"@,
        Prompt::CoinFlipForEffect { .. } => "CoinFlipForEffect"@,
    }
}

pub fn prompt_kind_name(prompt: &Prompt) -> (r: String)
    ensures
        r@ == prompt_kind_label(*prompt),
{
    match prompt {
        Prompt::ChooseStartingActive { .. } => "ChooseStartingActive".to_owned(),
        Prompt::ChooseBenchBasics { .. } => "ChooseBenchBasics".to_owned(),
        Prompt::ChooseAttack { .. } => "ChooseAttack".to_owned(),
        Prompt::ChooseCardsFromDeck { .. } => "ChooseCardsFromDeck".to_owned(),
        Prompt::ChooseCardsFromDiscard { .. } => "ChooseCardsFromDiscard".to_owned(),
        Prompt::ChoosePokemonInPlay { .. } => "ChoosePokemonInPlay".to_owned(),
        Prompt::ReorderDeckTop { .. } => "ReorderDeckTop".to_owned(),
        Prompt::ChooseAttachedEnergy { .. } => "ChooseAttachedEnergy".to_owned(),
        Prompt::ChooseCardsFromHand { .. } => "ChooseCardsFromHand".to_owned(),
        Prompt::ChooseCardsInPlay { .. } => "ChooseCardsInPlay".to_owned(),
        Prompt::ChoosePrizeCards { .. } => "ChoosePrizeCards".to_owned(),
        Prompt::ChooseDefenderAttack { .. } => "ChooseDefenderAttack".to_owned(),
        Prompt::ChoosePokemonAttack { .. } => "ChoosePokemonAttack".to_owned(),
        Prompt::ChooseSpecialCondition { .. } => "ChooseSpecialCondition".to_owned(),
        Prompt::ChooseNewActive { .. } => "ChooseNewActive".to_owned(),
        Prompt::CoinFlipForEffect { .. } => "CoinFlipForEffect".to_owned(),
    }
}

/// The name of an energy type.
pub open spec fn type_label(t: Type) -> Seq<char> {
    match t {
        Type::Grass => "Grass"@,
        Type::Fire => "Fire"@,
        Type::Water => "Water"@,
        Type::Lightning => "Lightning"@,
        Type::Psychic => "Psychic"@,
        Type::Fighting => "Fighting"@,
        Type::Darkness => "Darkness"@,
        Type::Metal => "Metal"@,
        Type::Colorless => "Colorless"@,
    }
}

pub fn energy_type_name(t: Type) -> (r: String)
    ensures
        r@ == type_label(t),
{
    match t {
        Type::Grass => "Grass".to_owned(),
        Type::Fire => "Fire".to_owned(),
        Type::Water => "Water".to_owned(),
        Type::Lightning => "Lightning".to_owned(),
        Type::Psychic => "Psychic".to_owned(),
        Type::Fighting => "Fighting".to_owned(),
        Type::Darkness => "Darkness".to_owned(),
        Type::Metal => "Metal".to_owned(),
        Type::Colorless => "Colorless".to_owned(),
    }
}

/// The numbers of some card identifiers.
pub open spec fn id_values(ids: Seq<CardInstanceId>) -> Seq<u64> {
    ids.map_values(|c: CardInstanceId| c.id)
}

fn id_values_of(ids: &[CardInstanceId]) -> (r: Vec<u64>)
    ensures
        r@ == id_values(ids@),
{
    let mut out: Vec<u64> = Vec::new();
    let mut i: usize = 0;
    while i < ids.len()
        invariant
            i <= ids@.len(),
            out@ == id_values(ids@).take(i as int),
        decreases ids.len() - i,
    {
        out.push(ids[i].value());
        i = i + 1;
        assert(out@ =~= id_values(ids@).take(i as int));
    }
    assert(id_values(ids@).take(ids@.len() as int) =~= id_values(ids@));
    out
}

/// The card identifiers a prompt lets the player choose among: its options,
/// the Pokémon whose energy is chosen, or none for prompts that choose an
/// attack, a condition or a coin flip.
pub open spec fn prompt_choices(prompt: Prompt) -> Seq<u64> {
    match prompt {
        Prompt::ChooseStartingActive { options } => id_values(options@),
        Prompt::ChooseNewActive { options, .. } => id_values(options@),
        Prompt::ChooseBenchBasics { options, .. } => id_values(options@),
        Prompt::ChooseCardsFromDeck { options, .. } => id_values(options@),
        Prompt::ChooseCardsFromDiscard { options, .. } => id_values(options@),
        Prompt::ChoosePokemonInPlay { options, .. } => id_values(options@),
        Prompt::ReorderDeckTop { options, .. } => id_values(options@),
        Prompt::ChooseAttachedEnergy { pokemon_id, .. } => seq![pokemon_id.id],
        Prompt::ChooseCardsFromHand { options, .. } => id_values(options@),
        Prompt::ChooseCardsInPlay { options, .. } => id_values(options@),
        Prompt::ChoosePrizeCards { options, .. } => id_values(options@),
        _ => Seq::empty(),
    }
}

/// What the agent is told of the pending prompt, if any: whether an answer is
/// required, the kind of action that answers it, and the identifiers to choose from.
pub struct PromptSummary {
    pub required: bool,
    pub action_type: String,
    pub choices: Vec<u64>,
}

pub fn prompt_summary(prompt: Option<&Prompt>) -> (r: PromptSummary)
    ensures
        match prompt {
            Some(p) => r.required && r.action_type@ == prompt_action_label(*p) && r.choices@ == prompt_choices(*p),
            None => !r.required && r.action_type@ == Seq::<char>::empty() && r.choices@ == Seq::<u64>::empty(),
        },
{
    match prompt {
        Some(p) => {
            let choices = match p {
                Prompt::ChooseStartingActive { options } => id_values_of(options.as_slice()),
                Prompt::ChooseNewActive { options, .. } => id_values_of(options.as_slice()),
                Prompt::ChooseBenchBasics { options, .. } => id_values_of(options.as_slice()),
                Prompt::ChooseCardsFromDeck { options, .. } => id_values_of(options.as_slice()),
                Prompt::ChooseCardsFromDiscard { options, .. } => id_values_of(options.as_slice()),
                Prompt::ChoosePokemonInPlay { options, .. } => id_values_of(options.as_slice()),
                Prompt::ReorderDeckTop { options, .. } => id_values_of(options.as_slice()),
                Prompt::ChooseAttachedEnergy { pokemon_id, .. } => {
                    let mut v: Vec<u64> = Vec::new();
                    v.push(pokemon_id.value());
                    assert(v@ =~= seq![pokemon_id.id]);
                    v
                },
                Prompt::ChooseCardsFromHand { options, .. } => id_values_of(options.as_slice()),
                Prompt::ChooseCardsInPlay { options, .. } => id_values_of(options.as_slice()),
                Prompt::ChoosePrizeCards { options, .. } => id_values_of(options.as_slice()),
                _ => Vec::new(),
            };
            PromptSummary { required: true, action_type: prompt_action_type(p), choices }
        },
        None => PromptSummary { required: false, action_type: String::new(), choices: Vec::new() },
    }
}

/// A kind of action the agent may take outside prompts.
#[derive(Clone, Copy, Debug, PartialEq, Eq, Structural)]
pub enum Offer {
    PlayBasic,
    AttachEnergy,
    Evolve,
    PlayTrainer,
    DeclareAttack,
    EndTurn,
}

/// `o` when `cond` holds, nothing otherwise.
pub open spec fn offer_if(cond: bool, o: Offer) -> Seq<Offer> {
    if cond {
        seq![o]
    } else {
        Seq::empty()
    }
}

/// The actions open to the agent, in the order shown: in the main phase a
/// basic Pokémon (while the bench has room), an energy (unless one was
/// attached this turn), an evolution and a trainer card when the hand holds
/// one; in any phase the attack and the end of the turn when the engine allows them.
pub open spec fn offers_spec(view: GameView, energy_attached_this_turn: bool) -> Seq<Offer> {
    let h = view.action_hints;
    let main = view.phase == Phase::Main;
    offer_if(main && view.my_bench@.len() < 5 && h.playable_basic_ids@.len() > 0, Offer::PlayBasic) + offer_if(
        main && !energy_attached_this_turn && h.playable_energy_ids@.len() > 0,
        Offer::AttachEnergy,
    ) + offer_if(main && h.playable_evolution_ids@.len() > 0, Offer::Evolve) + offer_if(
        main && h.playable_trainer_ids@.len() > 0,
        Offer::PlayTrainer,
    ) + offer_if(h.can_declare_attack, Offer::DeclareAttack) + offer_if(h.can_end_turn, Offer::EndTurn)
}

fn push_if(out: &mut Vec<Offer>, cond: bool, o: Offer)
    ensures
        final(out)@ == old(out)@ + offer_if(cond, o),
{
    if cond {
        out.push(o);
    }
    assert(out@ =~= old(out)@ + offer_if(cond, o));
}

pub fn offers(view: &GameView, energy_attached_this_turn: bool) -> (r: Vec<Offer>)
    ensures
        r@ == offers_spec(*view, energy_attached_this_turn),
{
    let h = &view.action_hints;
    let main = view.phase == Phase::Main;
    let mut out: Vec<Offer> = Vec::new();
    push_if(&mut out, main && view.my_bench.len() < 5 && h.playable_basic_ids.len() > 0, Offer::PlayBasic);
    push_if(&mut out, main && !energy_attached_this_turn && h.playable_energy_ids.len() > 0, Offer::AttachEnergy);
    push_if(&mut out, main && h.playable_evolution_ids.len() > 0, Offer::Evolve);
    push_if(&mut out, main && h.playable_trainer_ids.len() > 0, Offer::PlayTrainer);
    push_if(&mut out, h.can_declare_attack, Offer::DeclareAttack);
    push_if(&mut out, h.can_end_turn, Offer::EndTurn);
    assert(Seq::<Offer>::empty() + offer_if(main && view.my_bench@.len() < 5 && h.playable_basic_ids@.len() > 0, Offer::PlayBasic)
        =~= offer_if(main && view.my_bench@.len() < 5 && h.playable_basic_ids@.len() > 0, Offer::PlayBasic));
    out
}

/// The name an offered action is shown under.
pub open spec fn offer_label(o: Offer) -> Seq<char> {
    match o {
        Offer::PlayBasic => "PlayBasic"@,
        Offer::AttachEnergy => "AttachEnergy"@,
        Offer::Evolve => "Evolve"@,
        Offer::PlayTrainer => "PlayTrainer"@,
        Offer::DeclareAttack => "DeclareAttack"@,
        Offer::EndTurn => "EndTurn"@,
    }
}

pub fn offer_name(o: Offer) -> (r: String)
    ensures
        r@ == offer_label(o),
{
    match o {
        Offer::PlayBasic => "PlayBasic".to_owned(),
        Offer::AttachEnergy => "AttachEnergy".to_owned(),
        Offer::Evolve => "Evolve".to_owned(),
        Offer::PlayTrainer => "PlayTrainer".to_owned(),
        Offer::DeclareAttack => "DeclareAttack".to_owned(),
        Offer::EndTurn => "EndTurn".to_owned(),
    }
}

/// How many choices an offered action has, shown beside its name; none for the end of the turn.
pub open spec fn offer_count_spec(view: GameView, o: Offer) -> Option<usize> {
    let h = view.action_hints;
    match o {
        Offer::PlayBasic => Some(h.playable_basic_ids@.len() as usize),
        Offer::AttachEnergy => Some(h.playable_energy_ids@.len() as usize),
        Offer::Evolve => Some(h.playable_evolution_ids@.len() as usize),
        Offer::PlayTrainer => Some(h.playable_trainer_ids@.len() as usize),
        Offer::DeclareAttack => Some(h.usable_attacks@.len() as usize),
        Offer::EndTurn => None,
    }
}

pub fn offer_count(view: &GameView, o: Offer) -> (r: Option<usize>)
    ensures
        r == offer_count_spec(*view, o),
{
    let h = &view.action_hints;
    match o {
        Offer::PlayBasic => Some(h.playable_basic_ids.len()),
        Offer::AttachEnergy => Some(h.playable_energy_ids.len()),
        Offer::Evolve => Some(h.playable_evolution_ids.len()),
        Offer::PlayTrainer => Some(h.playable_trainer_ids.len()),
        Offer::DeclareAttack => Some(h.usable_attacks.len()),
        Offer::EndTurn => None,
    }
}

/// The actions listed with their options for the agent: the pending prompt's
/// kind of answer alone, else the offered actions' names.
pub open spec fn action_kinds_spec(view: GameView, energy_attached_this_turn: bool) -> Seq<Seq<char>> {
    match view.pending_prompt {
        Some(p) => seq![prompt_action_label(p)],
        None => offers_spec(view, energy_attached_this_turn).map_values(|o: Offer| offer_label(o)),
    }
}

pub fn action_kinds(view: &GameView, energy_attached_this_turn: bool) -> (r: Vec<String>)
    ensures
        r@.map_values(|s: String| s@) == action_kinds_spec(*view, energy_attached_this_turn),
{
    let mut out: Vec<String> = Vec::new();
    match &view.pending_prompt {
        Some(p) => {
            out.push(prompt_action_type(p));
            assert(out@.map_values(|s: String| s@) =~= seq![prompt_action_label(*p)]);
        },
        None => {
            let os = offers(view, energy_attached_this_turn);
            let mut i: usize = 0;
            while i < os.len()
                invariant
                    i <= os@.len(),
                    os@ == offers_spec(*view, energy_attached_this_turn),
                    out@.map_values(|s: String| s@) == os@.take(i as int).map_values(|o: Offer| offer_label(o)),
                decreases os.len() - i,
            {
                let name = offer_name(os[i]);
                let ghost prev = out@;
                out.push(name);
                proof {
                    assert(out@ == prev.push(name));
                    assert(os@.take(i + 1) =~= os@.take(i as int).push(os@[i as int]));
                    assert(out@.map_values(|s: String| s@) =~= prev.map_values(|s: String| s@).push(name@));
                    assert(os@.take(i + 1).map_values(|o: Offer| offer_label(o)) =~= os@.take(i as int).map_values(
                        |o: Offer| offer_label(o),
                    ).push(offer_label(os@[i as int])));
                }
                i = i + 1;
            }
            assert(os@.take(os@.len() as int) =~= os@);
        },
    }
    out
}

/// The player shown as the one to act: the agent (P1) while a prompt is pending.
pub open spec fn shown_player_spec(view: GameView) -> PlayerId {
    if view.pending_prompt is Some {
        PlayerId::P1
    } else {
        view.current_player
    }
}

pub fn shown_player(view: &GameView) -> (r: PlayerId)
    ensures
        r == shown_player_spec(*view),
{
    if view.pending_prompt.is_some() {
        PlayerId::P1
    } else {
        view.current_player
    }
}

/// HP left and full HP as shown: the HP less 10 per damage counter, not below 0.
pub fn hp_shown(hp: u16, damage_counters: u16) -> (r: [u16; 2])
    requires
        damage_counters * 10 <= u16::MAX,
    ensures
        r[0] == (if hp >= damage_counters * 10 {
            hp - damage_counters * 10
        } else {
            0
        }),
        r[1] == hp,
{
    let damage = damage_counters * 10;
    let left = if hp >= damage {
        hp - damage
    } else {
        0
    };
    [left, hp]
}

/// The name a card is shown under: its registry name, else its identifier.
pub open spec fn card_name_spec(meta: Map<Seq<char>, CardMetaSpec>, def_id: Seq<char>) -> Seq<char> {
    if meta.contains_key(def_id) {
        meta[def_id].name
    } else {
        def_id
    }
}

pub fn card_name(meta: &CardMetaMap, def_id: &str) -> (r: String)
    ensures
        r@ == card_name_spec(meta@, def_id@),
{
    match meta.get(def_id) {
        Some(m) => m.name.clone(),
        None => def_id.to_owned(),
    }
}

/// The attacks shown for our Active Pokémon: those its metadata lists, else
/// the usable ones; none without an Active Pokémon.
pub open spec fn shown_attacks_spec(view: GameView, meta: Map<Seq<char>, CardMetaSpec>) -> Seq<crate::model::AttackSpec> {
    match view.my_active {
        Some(a) => if meta.contains_key(a.card.def_id@) {
            meta[a.card.def_id@].attacks
        } else {
            attack_views(view.action_hints.usable_attacks@)
        },
        None => Seq::empty(),
    }
}

fn copy_attacks(attacks: &[Attack]) -> (r: Vec<Attack>)
    ensures
        attack_views(r@) == attack_views(attacks@),
{
    let mut out: Vec<Attack> = Vec::new();
    let mut i: usize = 0;
    while i < attacks.len()
        invariant
            i <= attacks@.len(),
            attack_views(out@) == attack_views(attacks@).take(i as int),
        decreases attacks.len() - i,
    {
        let a = copy_attack(&attacks[i]);
        let ghost prev = out@;
        out.push(a);
        proof {
            assert(out@ == prev.push(a));
            assert(attack_views(out@) =~= attack_views(prev).push(a@));
            assert(attack_views(attacks@).take(i + 1) =~= attack_views(attacks@).take(i as int).push(attacks@[i as int]@));
        }
        i = i + 1;
    }
    assert(attack_views(attacks@).take(attacks@.len() as int) =~= attack_views(attacks@));
    out
}

pub fn shown_attacks(view: &GameView, meta: &CardMetaMap) -> (r: Vec<Attack>)
    ensures
        attack_views(r@) == shown_attacks_spec(*view, meta@),
{
    match &view.my_active {
        Some(a) => match meta.get(a.card.def_id.as_str()) {
            Some(m) => copy_attacks(m.attacks.as_slice()),
            None => copy_attacks(view.action_hints.usable_attacks.as_slice()),
        },
        None => Vec::new(),
    }
}

/// The attack names offered with the attack: the usable attacks', else those
/// the Active Pokémon's metadata lists, else none.
pub open spec fn attack_names_spec(view: GameView, meta: Map<Seq<char>, CardMetaSpec>) -> Seq<Seq<char>> {
    if view.action_hints.usable_attacks@.len() > 0 {
        attack_views(view.action_hints.usable_attacks@).map_values(|a: crate::model::AttackSpec| a.name)
    } else {
        match view.my_active {
            Some(a) => if meta.contains_key(a.card.def_id@) {
                meta[a.card.def_id@].attacks.map_values(|x: crate::model::AttackSpec| x.name)
            } else {
                Seq::empty()
            },
            None => Seq::empty(),
        }
    }
}

fn attack_names_of(attacks: &[Attack]) -> (r: Vec<String>)
    ensures
        r@.map_values(|s: String| s@) == attack_views(attacks@).map_values(|a: crate::model::AttackSpec| a.name),
{
    let mut out: Vec<String> = Vec::new();
    let mut i: usize = 0;
    while i < attacks.len()
        invariant
            i <= attacks@.len(),
            out@.map_values(|s: String| s@) == attack_views(attacks@).map_values(|a: crate::model::AttackSpec| a.name).take(i as int),
        decreases attacks.len() - i,
    {
        let name = attacks[i].name.clone();
        let ghost prev = out@;
        out.push(name);
        proof {
            let names = attack_views(attacks@).map_values(|a: crate::model::AttackSpec| a.name);
            assert(out@ == prev.push(name));
            assert(out@.map_values(|s: String| s@) =~= prev.map_values(|s: String| s@).push(name@));
            assert(names.take(i + 1) =~= names.take(i as int).push(names[i as int]));
        }
        i = i + 1;
    }
    assert(attack_views(attacks@).map_values(|a: crate::model::AttackSpec| a.name).take(attacks@.len() as int)
        =~= attack_views(attacks@).map_values(|a: crate::model::AttackSpec| a.name));
    out
}

pub fn attack_names(view: &GameView, meta: &CardMetaMap) -> (r: Vec<String>)
    ensures
        r@.map_values(|s: String| s@) == attack_names_spec(*view, meta@),
{
    if view.action_hints.usable_attacks.len() > 0 {
        return attack_names_of(view.action_hints.usable_attacks.as_slice());
    }
    match &view.my_active {
        Some(a) => match meta.get(a.card.def_id.as_str()) {
            Some(m) => {
                let r = attack_names_of(m.attacks.as_slice());
                r
            },
            None => Vec::new(),
        },
        None => Vec::new(),
    }
}

/// The character of a decimal digit.
pub open spec fn digit_char(d: nat) -> char {
    if d == 0 {
        '0'
    } else if d == 1 {
        '1'
    } else if d == 2 {
        '2'
    } else if d == 3 {
        '3'
    } else if d == 4 {
        '4'
    } else if d == 5 {
        '5'
    } else if d == 6 {
        '6'
    } else if d == 7 {
        '7'
    } else if d == 8 {
        '8'
    } else {
        '9'
    }
}

/// The decimal digits of `n`, as `to_string` writes them: no leading zeros,
/// and "0" for zero.
pub open spec fn decimal_chars(n: nat) -> Seq<char>
    decreases n,
{
    if n < 10 {
        seq![digit_char(n)]
    } else {
        decimal_chars(n / 10).push(digit_char(n % 10))
    }
}

/// A digit's character is a digit and stands for it.
proof fn lemma_digit_char(d: nat)
    requires
        d < 10,
    ensures
        is_digit(digit_char(d)),
        digit_char(d) as nat - '0' as nat == d,
{
    assert('0' as nat == 48 && '1' as nat == 49 && '2' as nat == 50 && '3' as nat == 51 && '4' as nat == 52);
    assert('5' as nat == 53 && '6' as nat == 54 && '7' as nat == 55 && '8' as nat == 56 && '9' as nat == 57);
}

/// The digits of `n` are digits, at least one, and their value is `n`.
pub proof fn lemma_decimal_chars(n: nat)
    ensures
        decimal_chars(n).len() > 0,
        forall|i: int| 0 <= i < decimal_chars(n).len() ==> is_digit(#[trigger] decimal_chars(n)[i]),
        decimal_value(decimal_chars(n)) == n,
    decreases n,
{
    if n < 10 {
        lemma_digit_char(n);
        assert(decimal_chars(n).drop_last() =~= Seq::<char>::empty());
        assert(decimal_value(Seq::<char>::empty()) == 0);
        assert(decimal_value(decimal_chars(n)) == decimal_value(decimal_chars(n).drop_last()) * 10 + (digit_char(n) as nat
            - '0' as nat) as nat);
    } else {
        let q = n / 10;
        let r = n % 10;
        lemma_digit_char(r);
        lemma_decimal_chars(q);
        let s = decimal_chars(q);
        assert(decimal_chars(n).drop_last() =~= s);
        assert(decimal_chars(n).last() == digit_char(r));
        assert forall|i: int| 0 <= i < decimal_chars(n).len() implies is_digit(#[trigger] decimal_chars(n)[i]) by {
            if i < s.len() {
                assert(decimal_chars(n)[i] == s[i]);
            }
        }
        assert(decimal_value(decimal_chars(n)) == decimal_value(s) * 10 + (digit_char(r) as nat - '0' as nat) as nat);
        assert(q * 10 + r == n) by (nonlinear_arith)
            requires
                q == n / 10,
                r == n % 10,
        ;
    }
}

/// The digit strings of a number, one literal each.
fn digit_str(d: usize) -> (r: &'static str)
    requires
        d < 10,
    ensures
        r@ == seq![digit_char(d as nat)],
{
    proof {
        reveal_strlit("0");
        reveal_strlit("1");
        reveal_strlit("2");
        reveal_strlit("3");
        reveal_strlit("4");
        reveal_strlit("5");
        reveal_strlit("6");
        reveal_strlit("7");
        reveal_strlit("8");
        reveal_strlit("9");
    }
    if d == 0 {
        "0"
    } else if d == 1 {
        "1"
    } else if d == 2 {
        "2"
    } else if d == 3 {
        "3"
    } else if d == 4 {
        "4"
    } else if d == 5 {
        "5"
    } else if d == 6 {
        "6"
    } else if d == 7 {
        "7"
    } else if d == 8 {
        "8"
    } else {
        "9"
    }
}

/// `n` written in decimal.
pub fn decimal_string(n: usize) -> (r: String)
    ensures
        r@ == decimal_chars(n as nat),
    decreases n,
{
    if n < 10 {
        let mut s = String::new();
        s.append(digit_str(n));
        assert(s@ =~= decimal_chars(n as nat));
        s
    } else {
        let mut s = decimal_string(n / 10);
        s.append(digit_str(n % 10));
        assert(s@ =~= decimal_chars(n as nat));
        s
    }
}

/// The name an offered action is listed under for the agent.
pub open spec fn offer_caption(o: Offer) -> Seq<char> {
    match o {
        Offer::PlayBasic => "PlayBasic"@,
        Offer::AttachEnergy => "AttachEnergy"@,
        Offer::Evolve => "Evolve"@,
        Offer::PlayTrainer => "PlayTrainer"@,
        Offer::DeclareAttack => "Attack"@,
        Offer::EndTurn => "EndTurn"@,
    }
}

/// The label of an offered action: its name, then its number of choices in
/// brackets, as in "PlayBasic (2)"; the end of the turn alone.
pub open spec fn offer_label_text(view: GameView, o: Offer) -> Seq<char> {
    match offer_count_spec(view, o) {
        Some(n) => offer_caption(o) + " ("@ + decimal_chars(n as nat) + ")"@,
        None => offer_caption(o),
    }
}

fn offer_caption_str(o: Offer) -> (r: &'static str)
    ensures
        r@ == offer_caption(o),
{
    match o {
        Offer::PlayBasic => "PlayBasic",
        Offer::AttachEnergy => "AttachEnergy",
        Offer::Evolve => "Evolve",
        Offer::PlayTrainer => "PlayTrainer",
        Offer::DeclareAttack => "Attack",
        Offer::EndTurn => "EndTurn",
    }
}

/// The label of one offered action.
pub fn offer_label_string(view: &GameView, o: Offer) -> (r: String)
    ensures
        r@ == offer_label_text(*view, o),
{
    let mut s = String::new();
    s.append(offer_caption_str(o));
    match offer_count(view, o) {
        Some(n) => {
            s.append(" (");
            let digits = decimal_string(n);
            s.append(digits.as_str());
            s.append(")");
            assert(s@ =~= offer_caption(o) + " ("@ + decimal_chars(n as nat) + ")"@);
        },
        None => {
            assert(s@ =~= offer_caption(o));
        },
    }
    s
}

/// The labels of the actions open to the agent, in the order they are offered.
pub fn available_action_labels(view: &GameView, energy_attached_this_turn: bool) -> (r: Vec<String>)
    ensures
        r@.map_values(|s: String| s@) == offers_spec(*view, energy_attached_this_turn).map_values(
            |o: Offer| offer_label_text(*view, o),
        ),
{
    let os = offers(view, energy_attached_this_turn);
    let mut out: Vec<String> = Vec::new();
    let mut i: usize = 0;
    while i < os.len()
        invariant
            i <= os@.len(),
            os@ == offers_spec(*view, energy_attached_this_turn),
            out@.map_values(|s: String| s@) == os@.take(i as int).map_values(|o: Offer| offer_label_text(*view, o)),
        decreases os.len() - i,
    {
        let label = offer_label_string(view, os[i]);
        let ghost prev = out@;
        out.push(label);
        proof {
            assert(out@ == prev.push(label));
            assert(out@.map_values(|s: String| s@) =~= prev.map_values(|s: String| s@).push(label@));
            assert(os@.take(i + 1).map_values(|o: Offer| offer_label_text(*view, o)) =~= os@.take(i as int).map_values(
                |o: Offer| offer_label_text(*view, o),
            ).push(offer_label_text(*view, os@[i as int])));
        }
        i = i + 1;
    }
    assert(os@.take(os@.len() as int) =~= os@);
    out
}

} // verus!
