# tcg_bench

Decision logic, card effects and the card registry of a Pokémon trading-card
game engine, written in Verus. The functions in `src/` are proved against
their contracts, except the thin wrappers in `rng.rs` and the lowercasing
call in `registry.rs`: their contracts restate what `rand`, `rand_chacha`
and `str::to_lowercase` document, and are trusted rather than proved. A
policy's generator is opaque; its contracts say which generator a seed gives
(`seeded_state`) and on which inputs a policy answers without drawing from it.

Layout of `src/`:

- `model.rs`: the game as a player sees it (cards, Pokémon, attacks, prompts,
  actions, the view of the board).
- `random_ai.rs`, `random_ai_v2.rs`, `random_ai_v3.rs`, `candidate_ai.rs`: four
  policies that propose candidate actions, in the order to try them, for a
  prompt or for a player's own turn; `ai_common.rs`, `candidates.rs` and
  `heuristics.rs` hold what they share.
- `registry.rs`: the metadata of every known card, and the metadata map built
  for two decks.
- `game.rs` and `cards/`: the state card effects read and change, and the
  cards (constants, damage, coin flips, energy bonuses).
- `observation.rs`: what the agent is shown of the game, and the card
  identifier read back from its answer.
- `session.rs`: the bookkeeping of a game played step by step and the tallies
  of a batch of games.
- `laws.rs`: properties that span several functions.
- `rng.rs`, `text.rs`: the random-number calls into `rand`, and character-level
  string helpers.

`app/` holds the Python-facing result and observation types and the JSON
snapshot of the game, built with `pyo3`, `serde` and `serde_json` from what the
library computes.

The game engine itself (the full game state, its rules, its renderer and the
engine-side AI that plays the benchmark games) lives in the separate crates
`tcg_core`, `tcg_rules_ex` and `tcg_ai`, which this crate does not depend on.
So neither `src/` nor `app/` holds the `PtcgGame` class or the
`run_ai_vs_ai` family of game runners: what those do between engine calls
(the step and turn bookkeeping, what to do after each engine step, the
candidate the engine accepted, the win condition read from the event log, the
end reason, seed validation, worker count, sample selection and the batch
tallies) is in `session.rs`, and a host that
links the engine drives it from there.
