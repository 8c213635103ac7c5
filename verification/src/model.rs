//! The game as the decision logic sees it: cards, attacks, the player's view of
//! the board, the prompts the engine asks and the actions a player answers with.
use vstd::prelude::*;

verus! {

/// Identifies one physical card during a game.
#[derive(Clone, Copy, Debug, PartialEq, Eq, Hash, PartialOrd, Ord, Structural)]
pub struct CardInstanceId {
    pub id: u64,
}

impl CardInstanceId {
    pub fn new(id: u64) -> (r: CardInstanceId)
        ensures
            r.id == id,
    {
        CardInstanceId { id }
    }

    pub fn value(&self) -> (r: u64)
        ensures
            r == self.id,
    {
        self.id
    }
}

#[derive(Clone, Copy, Debug, PartialEq, Eq, Hash, Structural)]
pub enum PlayerId {
    P1,
    P2,
}

#[derive(Clone, Copy, Debug, PartialEq, Eq, Hash, Structural)]
pub enum Type {
    Grass,
    Fire,
    Water,
    Lightning,
    Psychic,
    Fighting,
    Darkness,
    Metal,
    Colorless,
}

#[derive(Clone, Copy, Debug, PartialEq, Eq, Structural)]
pub enum Stage {
    Basic,
    Stage1,
    Stage2,
}

#[derive(Clone, Copy, Debug, PartialEq, Eq, Structural)]
pub enum Phase {
    Setup,
    Draw,
    Main,
    Attack,
    EndOfTurn,
}

#[derive(Clone, Copy, Debug, PartialEq, Eq, Structural)]
pub enum SpecialCondition {
    Asleep,
    Burned,
    Confused,
    Paralyzed,
    Poisoned,
}

#[derive(Clone, Copy, Debug, PartialEq, Eq, Structural)]
pub enum SelectionDestination {
    Hand,
    Discard,
    DeckTop,
    DeckBottom,
    Bench,
}

#[derive(Clone, Copy, Debug, PartialEq, Eq, Structural)]
pub struct Weakness {
    pub type_: Type,
    pub multiplier: u8,
}

#[derive(Clone, Copy, Debug, PartialEq, Eq, Structural)]
pub struct Resistance {
    pub type_: Type,
    pub value: u16,
}

#[derive(Clone, Debug, PartialEq, Eq)]
pub struct AttackCost {
    pub total_energy: u8,
    pub types: Vec<Type>,
}

/// An attack; `effect_ast` describes its extra effect, when it has one.
#[derive(Clone, Debug, PartialEq, Eq)]
pub struct Attack {
    pub name: String,
    pub damage: u16,
    pub attack_type: Type,
    pub cost: AttackCost,
    pub effect_ast: Option<String>,
}

/// A card as a player sees it.
#[derive(Clone, Debug, PartialEq, Eq)]
pub struct CardView {
    pub id: CardInstanceId,
    pub def_id: String,
    pub name: String,
}

/// A Pokémon in play as a player sees it.
#[derive(Clone, Debug, PartialEq, Eq)]
pub struct PokemonView {
    pub card: CardView,
    pub hp: u16,
    pub damage_counters: u16,
    pub attached_energy: Vec<CardView>,
    pub types: Vec<Type>,
    pub special_conditions: Vec<SpecialCondition>,
    pub weakness: Option<Weakness>,
    pub resistance: Option<Resistance>,
    pub attacks: Vec<Attack>,
}

/// What the engine tells a player that they may do now.
#[derive(Clone, Debug, PartialEq, Eq)]
pub struct ActionHints {
    pub playable_basic_ids: Vec<CardInstanceId>,
    pub playable_energy_ids: Vec<CardInstanceId>,
    pub playable_evolution_ids: Vec<CardInstanceId>,
    pub playable_trainer_ids: Vec<CardInstanceId>,
    pub attach_targets: Vec<CardInstanceId>,
    /// For each evolution card in hand, the Pokémon in play it may evolve.
    pub evolve_targets_by_card_id: Vec<(CardInstanceId, Vec<CardInstanceId>)>,
    pub usable_attacks: Vec<Attack>,
    pub can_declare_attack: bool,
    pub can_end_turn: bool,
}

/// A question the engine asks one player.
#[allow(inconsistent_fields)]
#[derive(Clone, Debug, PartialEq, Eq)]
pub enum Prompt {
    ChooseStartingActive { options: Vec<CardInstanceId> },
    ChooseBenchBasics { options: Vec<CardInstanceId>, min: usize, max: usize },
    ChooseAttack { attacks: Vec<Attack> },
    ChooseCardsFromDeck {
        player: PlayerId,
        count: usize,
        options: Vec<CardInstanceId>,
        min: Option<usize>,
        max: Option<usize>,
        destination: SelectionDestination,
        shuffle: bool,
    },
    ChooseCardsFromDiscard {
        player: PlayerId,
        count: usize,
        options: Vec<CardInstanceId>,
        min: Option<usize>,
        max: Option<usize>,
        destination: SelectionDestination,
    },
    ChoosePokemonInPlay { player: PlayerId, options: Vec<CardInstanceId>, min: usize, max: usize },
    ReorderDeckTop { player: PlayerId, options: Vec<CardInstanceId> },
    ChooseAttachedEnergy {
        player: PlayerId,
        pokemon_id: CardInstanceId,
        count: usize,
        min: Option<usize>,
    },
    ChooseCardsFromHand {
        player: PlayerId,
        count: usize,
        options: Vec<CardInstanceId>,
        min: Option<usize>,
        max: Option<usize>,
        return_to_deck: bool,
    },
    ChooseCardsInPlay { player: PlayerId, options: Vec<CardInstanceId>, min: usize, max: usize },
    ChoosePrizeCards { player: PlayerId, options: Vec<CardInstanceId>, min: usize, max: usize },
    ChooseDefenderAttack { player: PlayerId, defender_id: CardInstanceId, attacks: Vec<String> },
    ChoosePokemonAttack { player: PlayerId, pokemon_id: CardInstanceId, attacks: Vec<String> },
    ChooseSpecialCondition { player: PlayerId, options: Vec<SpecialCondition> },
    ChooseNewActive { player: PlayerId, options: Vec<CardInstanceId> },
    CoinFlipForEffect { player: PlayerId, effect_description: String },
}

/// A player's move, or answer to a prompt.
#[derive(Clone, Debug, PartialEq, Eq)]
pub enum Action {
    ChooseActive { card_id: CardInstanceId },
    ChooseBench { card_ids: Vec<CardInstanceId> },
    DeclareAttack { attack: Attack },
    TakeCardsFromDeck { card_ids: Vec<CardInstanceId> },
    TakeCardsFromDiscard { card_ids: Vec<CardInstanceId> },
    ChoosePokemonTargets { target_ids: Vec<CardInstanceId> },
    ReorderDeckTop { card_ids: Vec<CardInstanceId> },
    ChooseAttachedEnergy { energy_ids: Vec<CardInstanceId> },
    ReturnCardsFromHandToDeck { card_ids: Vec<CardInstanceId> },
    DiscardCardsFromHand { card_ids: Vec<CardInstanceId> },
    ChooseCardsInPlay { card_ids: Vec<CardInstanceId> },
    ChoosePrizeCards { card_ids: Vec<CardInstanceId> },
    ChoosePokemonAttack { attack_name: String },
    ChooseSpecialCondition { condition: SpecialCondition },
    ChooseNewActive { card_id: CardInstanceId },
    PlayBasic { card_id: CardInstanceId },
    AttachEnergy { energy_id: CardInstanceId, target_id: CardInstanceId },
    EvolveFromHand { card_id: CardInstanceId, target_id: CardInstanceId },
    PlayTrainer { card_id: CardInstanceId },
    EndTurn,
}

/// Everything one player may see of the game.
#[derive(Clone, Debug, PartialEq, Eq)]
pub struct GameView {
    pub player_id: PlayerId,
    pub current_player: PlayerId,
    pub phase: Phase,
    pub pending_prompt: Option<Prompt>,
    pub my_active: Option<PokemonView>,
    pub my_bench: Vec<PokemonView>,
    pub my_hand: Vec<CardView>,
    pub my_deck_count: usize,
    pub my_prizes_count: usize,
    pub opponent_active: Option<PokemonView>,
    pub opponent_bench: Vec<PokemonView>,
    pub opponent_hand_count: usize,
    pub opponent_deck_count: usize,
    pub opponent_prizes_count: usize,
    pub action_hints: ActionHints,
}

/// The mathematical content of an attack.
pub ghost struct AttackSpec {
    pub name: Seq<char>,
    pub damage: u16,
    pub attack_type: Type,
    pub total_energy: u8,
    pub cost_types: Seq<Type>,
    pub effect: Option<Seq<char>>,
}

impl View for Attack {
    type V = AttackSpec;

    open spec fn view(&self) -> AttackSpec {
        AttackSpec {
            name: self.name@,
            damage: self.damage,
            attack_type: self.attack_type,
            total_energy: self.cost.total_energy,
            cost_types: self.cost.types@,
            effect: match self.effect_ast {
                Some(s) => Some(s@),
                None => None,
            },
        }
    }
}

/// The views of a sequence of attacks.
pub open spec fn attack_views(attacks: Seq<Attack>) -> Seq<AttackSpec> {
    attacks.map_values(|a: Attack| a@)
}

/// A copy of the energy types of a cost.
pub fn copy_types(types: &[Type]) -> (r: Vec<Type>)
    ensures
        r@ == types@,
{
    let mut out: Vec<Type> = Vec::new();
    let mut i: usize = 0;
    while i < types.len()
        invariant
            i <= types.len(),
            out@ == types@.take(i as int),
        decreases types.len() - i,
    {
        out.push(types[i]);
        i = i + 1;
    }
    assert(out@ == types@);
    out
}

/// A copy of the attack, with the same content.
pub fn copy_attack(a: &Attack) -> (r: Attack)
    ensures
        r@ == a@,
{
    let effect_ast = match &a.effect_ast {
        Some(s) => Some(s.clone()),
        None => None,
    };
    Attack {
        name: a.name.clone(),
        damage: a.damage,
        attack_type: a.attack_type,
        cost: AttackCost { total_energy: a.cost.total_energy, types: copy_types(a.cost.types.as_slice()) },
        effect_ast,
    }
}

/// A copy of the identifiers, equal to them.
pub fn copy_ids(ids: &[CardInstanceId]) -> (r: Vec<CardInstanceId>)
    ensures
        r@ == ids@,
{
    let mut out: Vec<CardInstanceId> = Vec::new();
    let mut i: usize = 0;
    while i < ids.len()
        invariant
            i <= ids.len(),
            out@ == ids@.take(i as int),
        decreases ids.len() - i,
    {
        out.push(ids[i]);
        i = i + 1;
    }
    assert(out@ == ids@);
    out
}

} // verus!
