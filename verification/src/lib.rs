//! Card effects, card registry and opponent decision logic for a Pokémon
//! trading-card-game engine, with their behaviour stated as contracts.

pub mod ai_common;
pub mod candidate_ai;
pub mod candidates;
pub mod cards;
pub mod game;
pub mod heuristics;
pub mod laws;
pub mod model;
pub mod observation;
pub mod random_ai;
pub mod random_ai_v2;
pub mod random_ai_v3;
pub mod registry;
pub mod rng;
pub mod session;
pub mod text;
