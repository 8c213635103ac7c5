//! The card registry: the metadata (name, HP, stage, types, attacks, energy
//! provided) of every card the engine knows by its definition identifier,
//! basic energy cards under their two naming schemes, and the metadata map
//! built for a pair of decks.
use crate::model::{Attack, AttackCost, AttackSpec, Resistance, Stage, Type, Weakness, attack_views};
use crate::text::{
    chars_contain, chars_end_with, chars_equal, chars_of, chars_start_with, has_infix, has_prefix,
    has_suffix,
};
use vstd::prelude::*;

verus! {

/// What the engine knows of a card definition.
#[derive(Clone, Debug, PartialEq, Eq)]
pub struct CardMeta {
    pub name: String,
    pub is_basic: bool,
    pub is_tool: bool,
    pub is_stadium: bool,
    pub is_pokemon: bool,
    pub is_energy: bool,
    pub hp: u16,
    pub energy_kind: Option<String>,
    pub provides: Vec<Type>,
    pub trainer_kind: Option<String>,
    pub is_ex: bool,
    pub is_star: bool,
    pub is_delta: bool,
    pub stage: Stage,
    pub types: Vec<Type>,
    pub weakness: Option<Weakness>,
    pub resistance: Option<Resistance>,
    pub retreat_cost: Option<u8>,
    pub trainer_effect: Option<String>,
    pub evolves_from: Option<String>,
    pub attacks: Vec<Attack>,
    pub card_type: String,
    pub delta_species: bool,
}

/// The mathematical content of a card's metadata.
pub ghost struct CardMetaSpec {
    pub name: Seq<char>,
    pub is_basic: bool,
    pub is_tool: bool,
    pub is_stadium: bool,
    pub is_pokemon: bool,
    pub is_energy: bool,
    pub hp: u16,
    pub energy_kind: Option<Seq<char>>,
    pub provides: Seq<Type>,
    pub trainer_kind: Option<Seq<char>>,
    pub is_ex: bool,
    pub is_star: bool,
    pub is_delta: bool,
    pub stage: Stage,
    pub types: Seq<Type>,
    pub weakness: Option<Weakness>,
    pub resistance: Option<Resistance>,
    pub retreat_cost: Option<u8>,
    pub trainer_effect: Option<Seq<char>>,
    pub evolves_from: Option<Seq<char>>,
    pub attacks: Seq<AttackSpec>,
    pub card_type: Seq<char>,
    pub delta_species: bool,
}

/// The characters of an optional string.
pub open spec fn opt_chars(s: Option<String>) -> Option<Seq<char>> {
    match s {
        Some(t) => Some(t@),
        None => None,
    }
}

impl View for CardMeta {
    type V = CardMetaSpec;

    open spec fn view(&self) -> CardMetaSpec {
        CardMetaSpec {
            name: self.name@,
            is_basic: self.is_basic,
            is_tool: self.is_tool,
            is_stadium: self.is_stadium,
            is_pokemon: self.is_pokemon,
            is_energy: self.is_energy,
            hp: self.hp,
            energy_kind: opt_chars(self.energy_kind),
            provides: self.provides@,
            trainer_kind: opt_chars(self.trainer_kind),
            is_ex: self.is_ex,
            is_star: self.is_star,
            is_delta: self.is_delta,
            stage: self.stage,
            types: self.types@,
            weakness: self.weakness,
            resistance: self.resistance,
            retreat_cost: self.retreat_cost,
            trainer_effect: opt_chars(self.trainer_effect),
            evolves_from: opt_chars(self.evolves_from),
            attacks: attack_views(self.attacks@),
            card_type: self.card_type@,
            delta_species: self.delta_species,
        }
    }
}

/// The metadata of an optional card.
pub open spec fn meta_view(m: Option<CardMeta>) -> Option<CardMetaSpec> {
    match m {
        Some(x) => Some(x@),
        None => None,
    }
}

/// An attack with no extra effect.
pub open spec fn attack_entry(name: Seq<char>, damage: u16, attack_type: Type, total_energy: u8, energy_types: Seq<Type>) -> AttackSpec {
    AttackSpec { name, damage, attack_type, total_energy, cost_types: energy_types, effect: None }
}

/// An attack with no extra effect.
pub fn create_attack(name: &str, damage: u16, attack_type: Type, total_energy: u8, energy_types: Vec<Type>) -> (r: Attack)
    ensures
        r@ == attack_entry(name@, damage, attack_type, total_energy, energy_types@),
{
    Attack {
        name: name.to_owned(),
        damage,
        attack_type,
        cost: AttackCost { total_energy, types: energy_types },
        effect_ast: None,
    }
}

/// A δ Pokémon of one type, as the registry lists them.
pub open spec fn pokemon_entry(
    name: Seq<char>,
    is_basic: bool,
    hp: u16,
    is_ex: bool,
    stage: Stage,
    type_: Type,
    retreat: u8,
    evolves_from: Option<Seq<char>>,
    attacks: Seq<AttackSpec>,
) -> CardMetaSpec {
    CardMetaSpec {
        name,
        is_basic,
        is_tool: false,
        is_stadium: false,
        is_pokemon: true,
        is_energy: false,
        hp,
        energy_kind: None,
        provides: Seq::empty(),
        trainer_kind: None,
        is_ex,
        is_star: false,
        is_delta: true,
        stage,
        types: seq![type_],
        weakness: None,
        resistance: None,
        retreat_cost: Some(retreat),
        trainer_effect: None,
        evolves_from,
        attacks,
        card_type: "Pokemon"@,
        delta_species: true,
    }
}

fn pokemon_meta(
    name: &str,
    is_basic: bool,
    hp: u16,
    is_ex: bool,
    stage: Stage,
    type_: Type,
    retreat: u8,
    evolves_from: Option<&str>,
    attacks: Vec<Attack>,
) -> (r: CardMeta)
    ensures
        r@ == pokemon_entry(
            name@,
            is_basic,
            hp,
            is_ex,
            stage,
            type_,
            retreat,
            match evolves_from {
                Some(e) => Some(e@),
                None => None,
            },
            attack_views(attacks@),
        ),
{
    let mut types: Vec<Type> = Vec::new();
    types.push(type_);
    let evolves = match evolves_from {
        Some(e) => Some(e.to_owned()),
        None => None,
    };
    let r = CardMeta {
        name: name.to_owned(),
        is_basic,
        is_tool: false,
        is_stadium: false,
        is_pokemon: true,
        is_energy: false,
        hp,
        energy_kind: None,
        provides: Vec::new(),
        trainer_kind: None,
        is_ex,
        is_star: false,
        is_delta: true,
        stage,
        types,
        weakness: None,
        resistance: None,
        retreat_cost: Some(retreat),
        trainer_effect: None,
        evolves_from: evolves,
        attacks,
        card_type: "Pokemon".to_owned(),
        delta_species: true,
    };
    assert(r@.types =~= seq![type_]);
    r
}

/// A trainer card, as the registry lists them.
pub open spec fn trainer_entry(name: Seq<char>, is_tool: bool, trainer_kind: Seq<char>) -> CardMetaSpec {
    CardMetaSpec {
        name,
        is_basic: false,
        is_tool,
        is_stadium: false,
        is_pokemon: false,
        is_energy: false,
        hp: 0,
        energy_kind: None,
        provides: Seq::empty(),
        trainer_kind: Some(trainer_kind),
        is_ex: false,
        is_star: false,
        is_delta: false,
        stage: Stage::Basic,
        types: Seq::empty(),
        weakness: None,
        resistance: None,
        retreat_cost: None,
        trainer_effect: None,
        evolves_from: None,
        attacks: Seq::empty(),
        card_type: "Trainer"@,
        delta_species: false,
    }
}

fn trainer_meta(name: &str, is_tool: bool, trainer_kind: &str) -> (r: CardMeta)
    ensures
        r@ == trainer_entry(name@, is_tool, trainer_kind@),
{
    let r = CardMeta {
        name: name.to_owned(),
        is_basic: false,
        is_tool,
        is_stadium: false,
        is_pokemon: false,
        is_energy: false,
        hp: 0,
        energy_kind: None,
        provides: Vec::new(),
        trainer_kind: Some(trainer_kind.to_owned()),
        is_ex: false,
        is_star: false,
        is_delta: false,
        stage: Stage::Basic,
        types: Vec::new(),
        weakness: None,
        resistance: None,
        retreat_cost: None,
        trainer_effect: None,
        evolves_from: None,
        attacks: Vec::new(),
        card_type: "Trainer".to_owned(),
        delta_species: false,
    };
    assert(r@.attacks =~= Seq::<AttackSpec>::empty());
    r
}

/// A basic energy card providing one type of energy, named by its definition identifier.
pub open spec fn basic_energy_entry(name: Seq<char>, provides: Type) -> CardMetaSpec {
    CardMetaSpec {
        name,
        is_basic: true,
        is_tool: false,
        is_stadium: false,
        is_pokemon: false,
        is_energy: true,
        hp: 0,
        energy_kind: Some("Basic"@),
        provides: seq![provides],
        trainer_kind: None,
        is_ex: false,
        is_star: false,
        is_delta: false,
        stage: Stage::Basic,
        types: Seq::empty(),
        weakness: None,
        resistance: None,
        retreat_cost: None,
        trainer_effect: None,
        evolves_from: None,
        attacks: Seq::empty(),
        card_type: "Energy"@,
        delta_species: false,
    }
}

fn basic_energy_meta(name: &str, provides: Type) -> (r: CardMeta)
    ensures
        r@ == basic_energy_entry(name@, provides),
{
    let mut kinds: Vec<Type> = Vec::new();
    kinds.push(provides);
    let r = CardMeta {
        name: name.to_owned(),
        is_basic: true,
        is_tool: false,
        is_stadium: false,
        is_pokemon: false,
        is_energy: true,
        hp: 0,
        energy_kind: Some("Basic".to_owned()),
        provides: kinds,
        trainer_kind: None,
        is_ex: false,
        is_star: false,
        is_delta: false,
        stage: Stage::Basic,
        types: Vec::new(),
        weakness: None,
        resistance: None,
        retreat_cost: None,
        trainer_effect: None,
        evolves_from: None,
        attacks: Vec::new(),
        card_type: "Energy".to_owned(),
        delta_species: false,
    };
    assert(r@.attacks =~= Seq::<AttackSpec>::empty());
    assert(r@.provides =~= seq![provides]);
    r
}


/// The type in a Holon Phantoms energy identifier such as "hp-109-psychic-energy":
/// the first of the basic types named before "-energy", Colorless if none is.
pub open spec fn hp_energy_type(lower: Seq<char>) -> Type {
    if has_infix(lower, "psychic-energy"@) {
        Type::Psychic
    } else if has_infix(lower, "fire-energy"@) {
        Type::Fire
    } else if has_infix(lower, "grass-energy"@) {
        Type::Grass
    } else if has_infix(lower, "water-energy"@) {
        Type::Water
    } else if has_infix(lower, "lightning-energy"@) {
        Type::Lightning
    } else if has_infix(lower, "fighting-energy"@) {
        Type::Fighting
    } else if has_infix(lower, "darkness-energy"@) {
        Type::Darkness
    } else if has_infix(lower, "metal-energy"@) {
        Type::Metal
    } else {
        Type::Colorless
    }
}

fn hp_energy_type_of(lower: &[char]) -> (r: Type)
    ensures
        r == hp_energy_type(lower@),
{
    if chars_contain(lower, chars_of("psychic-energy").as_slice()) {
        Type::Psychic
    } else if chars_contain(lower, chars_of("fire-energy").as_slice()) {
        Type::Fire
    } else if chars_contain(lower, chars_of("grass-energy").as_slice()) {
        Type::Grass
    } else if chars_contain(lower, chars_of("water-energy").as_slice()) {
        Type::Water
    } else if chars_contain(lower, chars_of("lightning-energy").as_slice()) {
        Type::Lightning
    } else if chars_contain(lower, chars_of("fighting-energy").as_slice()) {
        Type::Fighting
    } else if chars_contain(lower, chars_of("darkness-energy").as_slice()) {
        Type::Darkness
    } else if chars_contain(lower, chars_of("metal-energy").as_slice()) {
        Type::Metal
    } else {
        Type::Colorless
    }
}

/// The type of an identifier "energy-<type>" for the basic types, Colorless otherwise.
pub open spec fn named_energy_type(lower: Seq<char>) -> Type {
    if lower == "energy-psychic"@ {
        Type::Psychic
    } else if lower == "energy-fire"@ {
        Type::Fire
    } else if lower == "energy-grass"@ {
        Type::Grass
    } else if lower == "energy-water"@ {
        Type::Water
    } else if lower == "energy-lightning"@ {
        Type::Lightning
    } else if lower == "energy-fighting"@ {
        Type::Fighting
    } else if lower == "energy-darkness"@ {
        Type::Darkness
    } else if lower == "energy-metal"@ {
        Type::Metal
    } else {
        Type::Colorless
    }
}

fn named_energy_type_of(lower: &[char]) -> (r: Type)
    ensures
        r == named_energy_type(lower@),
{
    if chars_equal(lower, chars_of("energy-psychic").as_slice()) {
        Type::Psychic
    } else if chars_equal(lower, chars_of("energy-fire").as_slice()) {
        Type::Fire
    } else if chars_equal(lower, chars_of("energy-grass").as_slice()) {
        Type::Grass
    } else if chars_equal(lower, chars_of("energy-water").as_slice()) {
        Type::Water
    } else if chars_equal(lower, chars_of("energy-lightning").as_slice()) {
        Type::Lightning
    } else if chars_equal(lower, chars_of("energy-fighting").as_slice()) {
        Type::Fighting
    } else if chars_equal(lower, chars_of("energy-darkness").as_slice()) {
        Type::Darkness
    } else if chars_equal(lower, chars_of("energy-metal").as_slice()) {
        Type::Metal
    } else {
        Type::Colorless
    }
}

fn types1(a: Type) -> (r: Vec<Type>)
    ensures
        r@ == seq![a],
{
    let mut v: Vec<Type> = Vec::new();
    v.push(a);
    assert(v@ =~= seq![a]);
    v
}

fn types2(a: Type, b: Type) -> (r: Vec<Type>)
    ensures
        r@ == seq![a, b],
{
    let mut v = types1(a);
    v.push(b);
    assert(v@ =~= seq![a, b]);
    v
}

fn types3(a: Type, b: Type, c: Type) -> (r: Vec<Type>)
    ensures
        r@ == seq![a, b, c],
{
    let mut v = types2(a, b);
    v.push(c);
    assert(v@ =~= seq![a, b, c]);
    v
}

fn attacks1(a: Attack) -> (r: Vec<Attack>)
    ensures
        attack_views(r@) == seq![a@],
{
    let ghost va = a@;
    let mut v: Vec<Attack> = Vec::new();
    v.push(a);
    assert(attack_views(v@) =~= seq![va]);
    v
}

fn attacks2(a: Attack, b: Attack) -> (r: Vec<Attack>)
    ensures
        attack_views(r@) == seq![a@, b@],
{
    let ghost va = a@;
    let ghost vb = b@;
    let mut v: Vec<Attack> = Vec::new();
    v.push(a);
    v.push(b);
    assert(attack_views(v@) =~= seq![va, vb]);
    v
}

/// The cards the registry knows by their lowercase definition identifier.
pub open spec fn known_card(key: Seq<char>) -> Option<CardMetaSpec> {
    if key == "df-061-ralts"@ {
        Some(pokemon_entry(
            "Ralts δ"@,
            true,
            50,
            false,
            Stage::Basic,
            Type::Psychic,
            1,
            None,
            seq![
                attack_entry("Hypnosis"@, 0, Type::Psychic, 1, seq![Type::Psychic]),
                attack_entry(
                    "Psychic Boom"@,
                    10,
                    Type::Psychic,
                    2,
                    seq![Type::Psychic, Type::Colorless],
                ),
            ],
        ))
    } else if key == "df-033-kirlia"@ {
        Some(pokemon_entry(
            "Kirlia δ"@,
            false,
            70,
            false,
            Stage::Stage1,
            Type::Psychic,
            1,
            Some("Ralts"@),
            seq![
                attack_entry("Smack"@, 20, Type::Colorless, 1, seq![Type::Colorless]),
                attack_entry(
                    "Flickering Flames"@,
                    40,
                    Type::Psychic,
                    2,
                    seq![Type::Psychic, Type::Colorless],
                ),
            ],
        ))
    } else if key == "df-093-gardevoir-ex"@ {
        Some(pokemon_entry(
            "Gardevoir ex δ"@,
            false,
            150,
            true,
            Stage::Stage2,
            Type::Fire,
            2,
            Some("Kirlia"@),
            seq![
                attack_entry(
                    "Flame Ball"@,
                    80,
                    Type::Fire,
                    3,
                    seq![Type::Fire, Type::Colorless, Type::Colorless],
                ),
            ],
        ))
    } else if key == "df-017-jynx"@ {
        Some(pokemon_entry(
            "Jynx δ"@,
            true,
            60,
            false,
            Stage::Basic,
            Type::Psychic,
            1,
            None,
            seq![
                attack_entry(
                    "Psybeam"@,
                    20,
                    Type::Psychic,
                    2,
                    seq![Type::Psychic, Type::Colorless],
                ),
            ],
        ))
    } else if key == "df-070-vulpix"@ {
        Some(pokemon_entry(
            "Vulpix δ"@,
            true,
            50,
            false,
            Stage::Basic,
            Type::Fire,
            1,
            None,
            seq![attack_entry("Will-o'-the-wisp"@, 20, Type::Fire, 1, seq![Type::Fire])],
        ))
    } else if key == "df-008-ninetales"@ {
        Some(pokemon_entry(
            "Ninetales δ"@,
            false,
            80,
            false,
            Stage::Stage1,
            Type::Fire,
            1,
            Some("Vulpix"@),
            seq![
                attack_entry(
                    "Fire Blast"@,
                    60,
                    Type::Fire,
                    3,
                    seq![Type::Fire, Type::Fire, Type::Colorless],
                ),
            ],
        ))
    } else if key == "df-010-snorlax"@ {
        Some(pokemon_entry(
            "Snorlax δ"@,
            true,
            90,
            false,
            Stage::Basic,
            Type::Colorless,
            3,
            None,
            seq![
                attack_entry(
                    "Claw Swipe"@,
                    30,
                    Type::Colorless,
                    2,
                    seq![Type::Colorless, Type::Colorless],
                ),
            ],
        ))
    } else if key == "df-068-trapinch"@ {
        Some(pokemon_entry(
            "Trapinch δ"@,
            true,
            50,
            false,
            Stage::Basic,
            Type::Psychic,
            1,
            None,
            seq![attack_entry("Bite"@, 10, Type::Colorless, 1, seq![Type::Colorless])],
        ))
    } else if key == "df-024-vibrava"@ {
        Some(pokemon_entry(
            "Vibrava δ"@,
            false,
            70,
            false,
            Stage::Stage1,
            Type::Psychic,
            1,
            Some("Trapinch"@),
            seq![
                attack_entry("Quick Attack"@, 20, Type::Colorless, 1, seq![Type::Colorless]),
                attack_entry(
                    "Dragon Beat"@,
                    40,
                    Type::Psychic,
                    2,
                    seq![Type::Psychic, Type::Colorless],
                ),
            ],
        ))
    } else if key == "df-092-flygon-ex"@ {
        Some(pokemon_entry(
            "Flygon ex δ"@,
            false,
            150,
            true,
            Stage::Stage2,
            Type::Psychic,
            2,
            Some("Vibrava"@),
            seq![
                attack_entry(
                    "Psychic Pulse"@,
                    80,
                    Type::Psychic,
                    3,
                    seq![Type::Psychic, Type::Psychic, Type::Colorless],
                ),
            ],
        ))
    } else if key == "df-009-pinsir"@ {
        Some(pokemon_entry(
            "Pinsir δ"@,
            true,
            70,
            false,
            Stage::Basic,
            Type::Grass,
            2,
            None,
            seq![
                attack_entry(
                    "Grip and Squeeze"@,
                    50,
                    Type::Grass,
                    3,
                    seq![Type::Grass, Type::Grass, Type::Colorless],
                ),
            ],
        ))
    } else if key == "df-003-heracross"@ {
        Some(pokemon_entry(
            "Heracross δ"@,
            true,
            80,
            false,
            Stage::Basic,
            Type::Grass,
            2,
            None,
            seq![
                attack_entry(
                    "Megahorn"@,
                    60,
                    Type::Grass,
                    3,
                    seq![Type::Grass, Type::Grass, Type::Colorless],
                ),
            ],
        ))
    } else if key == "df-082-tv-reporter"@ {
        Some(trainer_entry("TV Reporter"@, false, "Supporter"@))
    } else if key == "df-079-prof-elms-training"@ {
        Some(trainer_entry("Prof. Elm's Training Method"@, false, "Trainer"@))
    } else if key == "df-072-buffer-piece"@ {
        Some(trainer_entry("Buffer Piece"@, true, "Pokemon Tool"@))
    } else {
        None
    }
}

fn known_card_meta(key: &[char]) -> (r: Option<CardMeta>)
    ensures
        meta_view(r) == known_card(key@),
{
    if chars_equal(key, chars_of("df-061-ralts").as_slice()) {
        return Some(pokemon_meta(
            "Ralts δ",
            true,
            50,
            false,
            Stage::Basic,
            Type::Psychic,
            1,
            None,
            attacks2(
                create_attack("Hypnosis", 0, Type::Psychic, 1, types1(Type::Psychic)),
                create_attack(
                    "Psychic Boom",
                    10,
                    Type::Psychic,
                    2,
                    types2(Type::Psychic, Type::Colorless),
                ),
            ),
        ));
    }
    if chars_equal(key, chars_of("df-033-kirlia").as_slice()) {
        return Some(pokemon_meta(
            "Kirlia δ",
            false,
            70,
            false,
            Stage::Stage1,
            Type::Psychic,
            1,
            Some("Ralts"),
            attacks2(
                create_attack("Smack", 20, Type::Colorless, 1, types1(Type::Colorless)),
                create_attack(
                    "Flickering Flames",
                    40,
                    Type::Psychic,
                    2,
                    types2(Type::Psychic, Type::Colorless),
                ),
            ),
        ));
    }
    if chars_equal(key, chars_of("df-093-gardevoir-ex").as_slice()) {
        return Some(pokemon_meta(
            "Gardevoir ex δ",
            false,
            150,
            true,
            Stage::Stage2,
            Type::Fire,
            2,
            Some("Kirlia"),
            attacks1(
                create_attack(
                    "Flame Ball",
                    80,
                    Type::Fire,
                    3,
                    types3(Type::Fire, Type::Colorless, Type::Colorless),
                ),
            ),
        ));
    }
    if chars_equal(key, chars_of("df-017-jynx").as_slice()) {
        return Some(pokemon_meta(
            "Jynx δ",
            true,
            60,
            false,
            Stage::Basic,
            Type::Psychic,
            1,
            None,
            attacks1(
                create_attack(
                    "Psybeam",
                    20,
                    Type::Psychic,
                    2,
                    types2(Type::Psychic, Type::Colorless),
                ),
            ),
        ));
    }
    if chars_equal(key, chars_of("df-070-vulpix").as_slice()) {
        return Some(pokemon_meta(
            "Vulpix δ",
            true,
            50,
            false,
            Stage::Basic,
            Type::Fire,
            1,
            None,
            attacks1(create_attack("Will-o'-the-wisp", 20, Type::Fire, 1, types1(Type::Fire))),
        ));
    }
    if chars_equal(key, chars_of("df-008-ninetales").as_slice()) {
        return Some(pokemon_meta(
            "Ninetales δ",
            false,
            80,
            false,
            Stage::Stage1,
            Type::Fire,
            1,
            Some("Vulpix"),
            attacks1(
                create_attack(
                    "Fire Blast",
                    60,
                    Type::Fire,
                    3,
                    types3(Type::Fire, Type::Fire, Type::Colorless),
                ),
            ),
        ));
    }
    if chars_equal(key, chars_of("df-010-snorlax").as_slice()) {
        return Some(pokemon_meta(
            "Snorlax δ",
            true,
            90,
            false,
            Stage::Basic,
            Type::Colorless,
            3,
            None,
            attacks1(
                create_attack(
                    "Claw Swipe",
                    30,
                    Type::Colorless,
                    2,
                    types2(Type::Colorless, Type::Colorless),
                ),
            ),
        ));
    }
    if chars_equal(key, chars_of("df-068-trapinch").as_slice()) {
        return Some(pokemon_meta(
            "Trapinch δ",
            true,
            50,
            false,
            Stage::Basic,
            Type::Psychic,
            1,
            None,
            attacks1(create_attack("Bite", 10, Type::Colorless, 1, types1(Type::Colorless))),
        ));
    }
    if chars_equal(key, chars_of("df-024-vibrava").as_slice()) {
        return Some(pokemon_meta(
            "Vibrava δ",
            false,
            70,
            false,
            Stage::Stage1,
            Type::Psychic,
            1,
            Some("Trapinch"),
            attacks2(
                create_attack("Quick Attack", 20, Type::Colorless, 1, types1(Type::Colorless)),
                create_attack(
                    "Dragon Beat",
                    40,
                    Type::Psychic,
                    2,
                    types2(Type::Psychic, Type::Colorless),
                ),
            ),
        ));
    }
    if chars_equal(key, chars_of("df-092-flygon-ex").as_slice()) {
        return Some(pokemon_meta(
            "Flygon ex δ",
            false,
            150,
            true,
            Stage::Stage2,
            Type::Psychic,
            2,
            Some("Vibrava"),
            attacks1(
                create_attack(
                    "Psychic Pulse",
                    80,
                    Type::Psychic,
                    3,
                    types3(Type::Psychic, Type::Psychic, Type::Colorless),
                ),
            ),
        ));
    }
    if chars_equal(key, chars_of("df-009-pinsir").as_slice()) {
        return Some(pokemon_meta(
            "Pinsir δ",
            true,
            70,
            false,
            Stage::Basic,
            Type::Grass,
            2,
            None,
            attacks1(
                create_attack(
                    "Grip and Squeeze",
                    50,
                    Type::Grass,
                    3,
                    types3(Type::Grass, Type::Grass, Type::Colorless),
                ),
            ),
        ));
    }
    if chars_equal(key, chars_of("df-003-heracross").as_slice()) {
        return Some(pokemon_meta(
            "Heracross δ",
            true,
            80,
            false,
            Stage::Basic,
            Type::Grass,
            2,
            None,
            attacks1(
                create_attack(
                    "Megahorn",
                    60,
                    Type::Grass,
                    3,
                    types3(Type::Grass, Type::Grass, Type::Colorless),
                ),
            ),
        ));
    }
    if chars_equal(key, chars_of("df-082-tv-reporter").as_slice()) {
        return Some(trainer_meta("TV Reporter", false, "Supporter"));
    }
    if chars_equal(key, chars_of("df-079-prof-elms-training").as_slice()) {
        return Some(trainer_meta("Prof. Elm's Training Method", false, "Trainer"));
    }
    if chars_equal(key, chars_of("df-072-buffer-piece").as_slice()) {
        return Some(trainer_meta("Buffer Piece", true, "Pokemon Tool"));
    }
    None
}

/// The metadata of the card `def_id`, given its lowercase form `lower`: a
/// Holon Phantoms basic energy ("hp-...-energy"), a basic energy
/// ("energy-<type>"), or one of the known cards; `None` for any other card.
pub open spec fn card_meta_spec(def_id: Seq<char>, lower: Seq<char>) -> Option<CardMetaSpec> {
    if has_prefix(lower, "hp-"@) && has_suffix(lower, "-energy"@) {
        Some(basic_energy_entry(def_id, hp_energy_type(lower)))
    } else if has_prefix(lower, "energy-"@) {
        Some(basic_energy_entry(def_id, named_energy_type(lower)))
    } else {
        known_card(lower)
    }
}

/// The metadata of the card `def_id`, given its lowercase form.
pub fn card_meta_for(def_id: &str, lower: &str) -> (r: Option<CardMeta>)
    ensures
        meta_view(r) == card_meta_spec(def_id@, lower@),
{
    let key = chars_of(lower);
    if chars_start_with(key.as_slice(), chars_of("hp-").as_slice()) && chars_end_with(
        key.as_slice(),
        chars_of("-energy").as_slice(),
    ) {
        return Some(basic_energy_meta(def_id, hp_energy_type_of(key.as_slice())));
    }
    if chars_start_with(key.as_slice(), chars_of("energy-").as_slice()) {
        return Some(basic_energy_meta(def_id, named_energy_type_of(key.as_slice())));
    }
    known_card_meta(key.as_slice())
}

/// `str::to_lowercase`, by Unicode's case mapping: a function of its argument alone.
pub uninterp spec fn lowercase(s: Seq<char>) -> Seq<char>;

/// `str::to_lowercase`: the claim is only that the result is `lowercase` of the argument.
#[verifier::external_body]
fn to_lowercase(s: &str) -> (r: String)
    ensures
        r@ == lowercase(s@),
{
    s.to_lowercase()
}

/// The metadata of the card `def_id`, matched case-insensitively.
pub fn get_card_meta(def_id: &str) -> (r: Option<CardMeta>)
    ensures
        meta_view(r) == card_meta_spec(def_id@, lowercase(def_id@)),
{
    let lower = to_lowercase(def_id);
    card_meta_for(def_id, lower.as_str())
}

/// The metadata the map holds, by definition identifier.
pub open spec fn map_of(entries: Seq<(String, CardMeta)>) -> Map<Seq<char>, CardMetaSpec>
    decreases entries.len(),
{
    if entries.len() == 0 {
        Map::empty()
    } else {
        map_of(entries.drop_last()).insert(entries.last().0@, entries.last().1@)
    }
}

/// No two entries share an identifier.
pub open spec fn keys_distinct(entries: Seq<(String, CardMeta)>) -> bool {
    forall|i: int, j: int| 0 <= i < j < entries.len() ==> entries[i].0@ != entries[j].0@
}

/// The map knows `k` exactly when some entry has that identifier.
pub proof fn lemma_map_of_dom(entries: Seq<(String, CardMeta)>, k: Seq<char>)
    ensures
        map_of(entries).contains_key(k) <==> exists|i: int| 0 <= i < entries.len() && entries[i].0@ == k,
    decreases entries.len(),
{
    if entries.len() > 0 {
        lemma_map_of_dom(entries.drop_last(), k);
        if map_of(entries).contains_key(k) && k != entries.last().0@ {
            let i = choose|i: int| 0 <= i < entries.drop_last().len() && entries.drop_last()[i].0@ == k;
            assert(entries[i].0@ == k);
        }
        if exists|i: int| 0 <= i < entries.len() && entries[i].0@ == k {
            let i = choose|i: int| 0 <= i < entries.len() && entries[i].0@ == k;
            if i < entries.len() - 1 {
                assert(entries.drop_last()[i].0@ == k);
            }
        }
    }
}

/// With distinct identifiers, the map holds each entry's metadata under its identifier.
pub proof fn lemma_map_of_index(entries: Seq<(String, CardMeta)>, i: int)
    requires
        keys_distinct(entries),
        0 <= i < entries.len(),
    ensures
        map_of(entries).contains_key(entries[i].0@),
        map_of(entries)[entries[i].0@] == entries[i].1@,
    decreases entries.len(),
{
    if i < entries.len() - 1 {
        lemma_map_of_index(entries.drop_last(), i);
        assert(entries.drop_last()[i] == entries[i]);
        assert(entries[i].0@ != entries.last().0@);
    }
}

/// Card metadata by definition identifier.
pub struct CardMetaMap {
    entries: Vec<(String, CardMeta)>,
}

impl View for CardMetaMap {
    type V = Map<Seq<char>, CardMetaSpec>;

    closed spec fn view(&self) -> Map<Seq<char>, CardMetaSpec> {
        map_of(self.entries@)
    }
}

impl CardMetaMap {
    #[verifier::type_invariant]
    closed spec fn wf(self) -> bool {
        keys_distinct(self.entries@)
    }

    /// An empty map.
    pub fn new() -> (r: CardMetaMap)
        ensures
            r@ == Map::<Seq<char>, CardMetaSpec>::empty(),
    {
        CardMetaMap { entries: Vec::new() }
    }

    /// The number of identifiers the map knows.
    pub fn len(&self) -> (r: usize)
        ensures
            r == self@.dom().len(),
    {
        proof {
            use_type_invariant(self);
            self.lemma_len();
        }
        self.entries.len()
    }

    proof fn lemma_len(&self)
        requires
            keys_distinct(self.entries@),
        ensures
            self@.dom().finite(),
            self@.dom().len() == self.entries@.len(),
    {
        lemma_map_of_len(self.entries@);
    }

    fn position(&self, key: &str) -> (r: Option<usize>)
        ensures
            r matches Some(i) ==> i < self.entries@.len() && self.entries@[i as int].0@ == key@,
            r is None ==> forall|i: int| 0 <= i < self.entries@.len() ==> self.entries@[i].0@ != key@,
    {
        let k = chars_of(key);
        let mut i: usize = 0;
        while i < self.entries.len()
            invariant
                i <= self.entries@.len(),
                k@ == key@,
                forall|j: int| 0 <= j < i ==> self.entries@[j].0@ != key@,
            decreases self.entries.len() - i,
        {
            let name = chars_of(self.entries[i].0.as_str());
            if chars_equal(name.as_slice(), k.as_slice()) {
                return Some(i);
            }
            i = i + 1;
        }
        None
    }

    /// Whether the map knows `key`.
    pub fn contains_key(&self, key: &str) -> (r: bool)
        ensures
            r == self@.contains_key(key@),
    {
        proof {
            lemma_map_of_dom(self.entries@, key@);
        }
        self.position(key).is_some()
    }

    /// The metadata of `key`, if the map knows it.
    pub fn get(&self, key: &str) -> (r: Option<&CardMeta>)
        ensures
            r matches Some(m) ==> self@.contains_key(key@) && self@[key@] == m@,
            r is None ==> !self@.contains_key(key@),
    {
        proof {
            use_type_invariant(self);
            lemma_map_of_dom(self.entries@, key@);
        }
        match self.position(key) {
            Some(i) => {
                proof {
                    lemma_map_of_index(self.entries@, i as int);
                }
                Some(&self.entries[i].1)
            },
            None => None,
        }
    }

    /// Records `meta` under `key`, in place of what the map held for it.
    pub fn insert(&mut self, key: String, meta: CardMeta)
        ensures
            final(self)@ == old(self)@.insert(key@, meta@),
    {
        proof {
            use_type_invariant(&*self);
            lemma_map_of_dom(self.entries@, key@);
        }
        match self.position(key.as_str()) {
            None => {
                self.insert_new(key, meta);
            },
            Some(i) => {
                let ghost before = self.entries@;
                let ghost kv = key@;
                let ghost mv = meta@;
                let mut entries: Vec<(String, CardMeta)> = Vec::new();
                std::mem::swap(&mut entries, &mut self.entries);
                entries.set(i, (key, meta));
                proof {
                    let after = entries@;
                    assert(after == before.update(i as int, after[i as int]));
                    assert(after[i as int].0@ == kv && after[i as int].1@ == mv);
                    assert(keys_distinct(after)) by {
                        assert forall|a: int, b: int| 0 <= a < b < after.len() implies after[a].0@ != after[b].0@ by {
                            if a != i && b != i {
                                assert(after[a] == before[a] && after[b] == before[b]);
                            } else if a == i {
                                assert(after[b] == before[b]);
                            } else {
                                assert(after[a] == before[a]);
                            }
                        }
                    }
                    let want = map_of(before).insert(kv, mv);
                    assert forall|k: Seq<char>| map_of(after).contains_key(k) <==> want.contains_key(k) by {
                        lemma_map_of_dom(after, k);
                        lemma_map_of_dom(before, k);
                        if exists|j: int| 0 <= j < after.len() && after[j].0@ == k {
                            let j = choose|j: int| 0 <= j < after.len() && after[j].0@ == k;
                            if j != i {
                                assert(before[j].0@ == k);
                            }
                        }
                        if exists|j: int| 0 <= j < before.len() && before[j].0@ == k {
                            let j = choose|j: int| 0 <= j < before.len() && before[j].0@ == k;
                            if j != i {
                                assert(after[j].0@ == k);
                            } else {
                                assert(after[i as int].0@ == k);
                            }
                        }
                        if k == kv {
                            assert(after[i as int].0@ == k);
                        }
                    }
                    assert forall|k: Seq<char>| #[trigger] map_of(after).contains_key(k) implies map_of(after)[k] == want[k] by {
                        lemma_map_of_dom(after, k);
                        let j = choose|j: int| 0 <= j < after.len() && after[j].0@ == k;
                        lemma_map_of_index(after, j);
                        if j != i {
                            assert(before[j] == after[j]);
                            lemma_map_of_index(before, j);
                        }
                    }
                    assert(map_of(after) =~= want);
                }
                self.entries = entries;
            },
        }
    }

    /// Records `meta` under an identifier the map does not know yet.
    fn insert_new(&mut self, key: String, meta: CardMeta)
        requires
            !old(self)@.contains_key(key@),
        ensures
            final(self)@ == old(self)@.insert(key@, meta@),
    {
        proof {
            use_type_invariant(&*self);
            lemma_map_of_dom(self.entries@, key@);
        }
        let ghost before = self.entries@;
        let mut entries: Vec<(String, CardMeta)> = Vec::new();
        std::mem::swap(&mut entries, &mut self.entries);
        entries.push((key, meta));
        assert(entries@.drop_last() =~= before);
        self.entries = entries;
    }
}

/// With distinct identifiers, the map has one identifier per entry.
pub proof fn lemma_map_of_len(entries: Seq<(String, CardMeta)>)
    requires
        keys_distinct(entries),
    ensures
        map_of(entries).dom().finite(),
        map_of(entries).dom().len() == entries.len(),
    decreases entries.len(),
{
    if entries.len() > 0 {
        let rest = entries.drop_last();
        assert(keys_distinct(rest));
        lemma_map_of_len(rest);
        lemma_map_of_dom(rest, entries.last().0@);
        if map_of(rest).contains_key(entries.last().0@) {
            let i = choose|i: int| 0 <= i < rest.len() && rest[i].0@ == entries.last().0@;
            assert(entries[i].0@ == entries[entries.len() - 1].0@);
        }
    }
}

/// The metadata a deck's card gets when the registry does not know it: a
/// basic Colorless Pokémon of 50 HP named by its identifier, with Tackle.
pub open spec fn fallback_entry(def_id: Seq<char>) -> CardMetaSpec {
    CardMetaSpec {
        name: def_id,
        is_basic: true,
        is_tool: false,
        is_stadium: false,
        is_pokemon: true,
        is_energy: false,
        hp: 50,
        energy_kind: None,
        provides: Seq::empty(),
        trainer_kind: None,
        is_ex: false,
        is_star: false,
        is_delta: false,
        stage: Stage::Basic,
        types: seq![Type::Colorless],
        weakness: None,
        resistance: None,
        retreat_cost: Some(1),
        trainer_effect: None,
        evolves_from: None,
        attacks: seq![attack_entry("Tackle"@, 20, Type::Colorless, 1, seq![Type::Colorless])],
        card_type: "Pokemon"@,
        delta_species: false,
    }
}

fn fallback_meta(def_id: &str) -> (r: CardMeta)
    ensures
        r@ == fallback_entry(def_id@),
{
    let r = CardMeta {
        name: def_id.to_owned(),
        is_basic: true,
        is_tool: false,
        is_stadium: false,
        is_pokemon: true,
        is_energy: false,
        hp: 50,
        energy_kind: None,
        provides: Vec::new(),
        trainer_kind: None,
        is_ex: false,
        is_star: false,
        is_delta: false,
        stage: Stage::Basic,
        types: types1(Type::Colorless),
        weakness: None,
        resistance: None,
        retreat_cost: Some(1),
        trainer_effect: None,
        evolves_from: None,
        attacks: attacks1(create_attack("Tackle", 20, Type::Colorless, 1, types1(Type::Colorless))),
        card_type: "Pokemon".to_owned(),
        delta_species: false,
    };
    r
}

/// What a deck's card is recorded with: its registry metadata, else the fallback.
pub open spec fn deck_card_meta(def_id: Seq<char>) -> CardMetaSpec {
    match card_meta_spec(def_id, lowercase(def_id)) {
        Some(m) => m,
        None => fallback_entry(def_id),
    }
}

/// The identifiers of a deck's cards.
pub open spec fn deck_ids(deck: Seq<String>) -> Seq<Seq<char>> {
    deck.map_values(|s: String| s@)
}

/// The metadata map for two decks: every card of either deck, once, with
/// what the registry knows of it, or the fallback when it knows nothing.
pub fn build_card_meta_map(deck1: &[String], deck2: &[String]) -> (r: CardMetaMap)
    ensures
        forall|k: Seq<char>| r@.contains_key(k) <==> (deck_ids(deck1@).contains(k) || deck_ids(deck2@).contains(k)),
        forall|k: Seq<char>| #[trigger] r@.contains_key(k) ==> r@[k] == deck_card_meta(k),
{
    let mut map = CardMetaMap::new();
    let mut i: usize = 0;
    while i < deck1.len()
        invariant
            i <= deck1@.len(),
            forall|k: Seq<char>| map@.contains_key(k) <==> deck_ids(deck1@).take(i as int).contains(k),
            forall|k: Seq<char>| #[trigger] map@.contains_key(k) ==> map@[k] == deck_card_meta(k),
        decreases deck1.len() - i,
    {
        add_deck_card(&mut map, &deck1[i]);
        proof {
            let ids = deck_ids(deck1@);
            let next = ids.take(i + 1);
            let cur = ids.take(i as int);
            assert(next =~= cur.push(deck1@[i as int]@));
            assert forall|k: Seq<char>| map@.contains_key(k) <==> next.contains(k) by {
                if next.contains(k) && k != deck1@[i as int]@ {
                    let w = choose|w: int| 0 <= w < next.len() && next[w] == k;
                    assert(cur[w] == k);
                }
                if cur.contains(k) {
                    let w = choose|w: int| 0 <= w < cur.len() && cur[w] == k;
                    assert(next[w] == k);
                }
                if k == deck1@[i as int]@ {
                    assert(next[i as int] == k);
                }
            }
        }
        i = i + 1;
    }
    assert(deck_ids(deck1@).take(deck1@.len() as int) =~= deck_ids(deck1@));
    let mut j: usize = 0;
    while j < deck2.len()
        invariant
            j <= deck2@.len(),
            forall|k: Seq<char>| map@.contains_key(k) <==> (deck_ids(deck1@).contains(k) || deck_ids(deck2@).take(j as int).contains(k)),
            forall|k: Seq<char>| #[trigger] map@.contains_key(k) ==> map@[k] == deck_card_meta(k),
        decreases deck2.len() - j,
    {
        add_deck_card(&mut map, &deck2[j]);
        proof {
            let ids = deck_ids(deck2@);
            let next = ids.take(j + 1);
            let cur = ids.take(j as int);
            assert(next =~= cur.push(deck2@[j as int]@));
            assert forall|k: Seq<char>| map@.contains_key(k) <==> (deck_ids(deck1@).contains(k) || next.contains(k)) by {
                if next.contains(k) && k != deck2@[j as int]@ {
                    let w = choose|w: int| 0 <= w < next.len() && next[w] == k;
                    assert(cur[w] == k);
                }
                if cur.contains(k) {
                    let w = choose|w: int| 0 <= w < cur.len() && cur[w] == k;
                    assert(next[w] == k);
                }
                if k == deck2@[j as int]@ {
                    assert(next[j as int] == k);
                }
            }
        }
        j = j + 1;
    }
    assert(deck_ids(deck2@).take(deck2@.len() as int) =~= deck_ids(deck2@));
    map
}

/// Records a deck's card unless the map already knows it.
fn add_deck_card(map: &mut CardMetaMap, def_id: &String)
    requires
        forall|k: Seq<char>| #[trigger] old(map)@.contains_key(k) ==> old(map)@[k] == deck_card_meta(k),
    ensures
        final(map)@.contains_key(def_id@),
        forall|k: Seq<char>| final(map)@.contains_key(k) <==> (old(map)@.contains_key(k) || k == def_id@),
        forall|k: Seq<char>| #[trigger] final(map)@.contains_key(k) ==> final(map)@[k] == deck_card_meta(k),
{
    if !map.contains_key(def_id.as_str()) {
        let meta = match get_card_meta(def_id.as_str()) {
            Some(m) => m,
            None => fallback_meta(def_id.as_str()),
        };
        map.insert_new(def_id.clone(), meta);
    }
}

} // verus!
