//! The bookkeeping of a game driven step by step: turns, steps, the end of
//! the game and why it ended; which side the opponent policy must act for;
//! and the tallies of a batch of games between two policies.
use crate::ai_common::ids_contain;
use crate::model::{CardInstanceId, Phase, PlayerId, Prompt};
use crate::observation::{extract_card_id, extract_card_id_spec};
use crate::text::{
    chars_contain, chars_of, has_infix, lemma_seq_less_ne, lemma_seq_less_total, lemma_seq_less_transitive,
    seq_less, str_less,
};
use vstd::prelude::*;

verus! {

/// What one step of the engine produced.
#[derive(Clone, Copy, Debug, PartialEq, Eq, Structural)]
pub enum StepOutcome {
    GameOver { winner: PlayerId },
    Prompt { for_player: PlayerId },
    Continue,
    Event,
}

/// Why a game stopped, or that it has not.
#[derive(Clone, Copy, Debug, PartialEq, Eq, Structural)]
pub enum EndReason {
    GameOver,
    MaxSteps,
    InProgress,
}

/// A game ended with a winner; else it ran out of steps; else it goes on.
pub open spec fn end_reason_spec(winner: Option<PlayerId>, steps: u32, max_steps: u32) -> EndReason {
    if winner is Some {
        EndReason::GameOver
    } else if steps >= max_steps {
        EndReason::MaxSteps
    } else {
        EndReason::InProgress
    }
}

pub fn end_reason(winner: Option<PlayerId>, steps: u32, max_steps: u32) -> (r: EndReason)
    ensures
        r == end_reason_spec(winner, steps, max_steps),
{
    if winner.is_some() {
        EndReason::GameOver
    } else if steps >= max_steps {
        EndReason::MaxSteps
    } else {
        EndReason::InProgress
    }
}

/// The name of an end reason.
pub open spec fn end_reason_label(r: EndReason) -> Seq<char> {
    match r {
        EndReason::GameOver => "GameOver"@,
        EndReason::MaxSteps => "MaxSteps"@,
        EndReason::InProgress => "InProgress"@,
    }
}

pub fn end_reason_name(r: EndReason) -> (s: String)
    ensures
        s@ == end_reason_label(r),
{
    match r {
        EndReason::GameOver => "GameOver".to_owned(),
        EndReason::MaxSteps => "MaxSteps".to_owned(),
        EndReason::InProgress => "InProgress".to_owned(),
    }
}

/// What the opponent policy, playing P2, must do after a step.
#[derive(Clone, Copy, Debug, PartialEq, Eq, Structural)]
pub enum OpponentDuty {
    Nothing,
    AnswerPrompt,
    TakeFreeAction,
}

/// P2 answers its own prompts; on a plain step during P2's main or attack
/// phase, with no prompt open, P2 takes a free action.
pub open spec fn opponent_duty_spec(
    outcome: StepOutcome,
    turn_player: PlayerId,
    prompt_open: bool,
    phase: Phase,
) -> OpponentDuty {
    match outcome {
        StepOutcome::Prompt { for_player } => if for_player == PlayerId::P2 {
            OpponentDuty::AnswerPrompt
        } else {
            OpponentDuty::Nothing
        },
        StepOutcome::Continue => if turn_player == PlayerId::P2 && !prompt_open && (phase == Phase::Main
            || phase == Phase::Attack) {
            OpponentDuty::TakeFreeAction
        } else {
            OpponentDuty::Nothing
        },
        _ => OpponentDuty::Nothing,
    }
}

pub fn opponent_duty(outcome: StepOutcome, turn_player: PlayerId, prompt_open: bool, phase: Phase) -> (r: OpponentDuty)
    ensures
        r == opponent_duty_spec(outcome, turn_player, prompt_open, phase),
{
    match outcome {
        StepOutcome::Prompt { for_player } => if for_player == PlayerId::P2 {
            OpponentDuty::AnswerPrompt
        } else {
            OpponentDuty::Nothing
        },
        StepOutcome::Continue => if turn_player == PlayerId::P2 && !prompt_open && (phase == Phase::Main
            || phase == Phase::Attack) {
            OpponentDuty::TakeFreeAction
        } else {
            OpponentDuty::Nothing
        },
        _ => OpponentDuty::Nothing,
    }
}

/// The agent (P1) must act now: the game is over, a prompt of its own is open,
/// or it is P1's turn in a phase where it acts.
pub open spec fn agent_must_act_spec(game_over: bool, p1_prompt_open: bool, current_player: PlayerId, phase: Phase) -> bool {
    game_over || p1_prompt_open || (current_player == PlayerId::P1 && (phase == Phase::Setup || phase
        == Phase::Main || phase == Phase::Attack))
}

pub fn agent_must_act(game_over: bool, p1_prompt_open: bool, current_player: PlayerId, phase: Phase) -> (r: bool)
    ensures
        r == agent_must_act_spec(game_over, p1_prompt_open, current_player, phase),
{
    game_over || p1_prompt_open || (current_player == PlayerId::P1 && (phase == Phase::Setup || phase
        == Phase::Main || phase == Phase::Attack))
}

/// When the agent's answer names a card among the options of a pending
/// choice of a new Active Pokémon, that card.
pub open spec fn new_active_fallback_spec(prompt: Prompt, answer: Seq<char>) -> Option<CardInstanceId> {
    match prompt {
        Prompt::ChooseNewActive { options, .. } => match extract_card_id_spec(answer) {
            Some(v) => if options@.contains(CardInstanceId { id: v }) {
                Some(CardInstanceId { id: v })
            } else {
                None
            },
            None => None,
        },
        _ => None,
    }
}

pub fn new_active_fallback(prompt: &Prompt, answer: &str) -> (r: Option<CardInstanceId>)
    ensures
        r == new_active_fallback_spec(*prompt, answer@),
{
    match prompt {
        Prompt::ChooseNewActive { options, .. } => match extract_card_id(answer) {
            Some(card_id) => {
                if ids_contain(options.as_slice(), card_id) {
                    Some(card_id)
                } else {
                    None
                }
            },
            None => None,
        },
        _ => None,
    }
}

/// The answer attaches an energy card, as far as its text says.
pub open spec fn mentions_energy_attachment(answer: Seq<char>) -> bool {
    has_infix(answer, "AttachEnergy"@)
}

/// A game played step by step: what is counted beside the engine's own
/// state (steps, turns, the agent's decisions, the end of the game and its
/// winner) and what the agent did this turn.
pub struct PtcgGame {
    pub steps: u32,
    pub turns: u32,
    pub decision_steps: u32,
    pub max_steps: u32,
    pub game_over: bool,
    pub winner: Option<PlayerId>,
    pub last_turn_player: PlayerId,
    pub energy_attached_this_turn: bool,
    pub current_turn_actions: Vec<String>,
}

impl PtcgGame {
    /// A fresh game: nothing counted yet, P1 to move first.
    pub fn new(max_steps: u32) -> (r: PtcgGame)
        ensures
            r.steps == 0,
            r.turns == 0,
            r.decision_steps == 0,
            r.max_steps == max_steps,
            !r.game_over,
            r.winner is None,
            r.last_turn_player == PlayerId::P1,
            !r.energy_attached_this_turn,
            r.current_turn_actions@.len() == 0,
            r.counts_consistent(),
    {
        PtcgGame {
            steps: 0,
            turns: 0,
            decision_steps: 0,
            max_steps,
            game_over: false,
            winner: None,
            last_turn_player: PlayerId::P1,
            energy_attached_this_turn: false,
            current_turn_actions: Vec::new(),
        }
    }

    /// Before a step: a change of the player to move starts a new turn, which
    /// allows a new energy attachment.
    pub fn begin_step(&mut self, turn_player: PlayerId)
        requires
            turn_player != old(self).last_turn_player ==> old(self).turns < u32::MAX,
        ensures
            final(self).last_turn_player == turn_player,
            final(self).turns == if turn_player != old(self).last_turn_player {
                old(self).turns + 1
            } else {
                old(self).turns as int
            },
            final(self).energy_attached_this_turn == (old(self).energy_attached_this_turn && turn_player
                == old(self).last_turn_player),
            final(self).steps == old(self).steps,
            final(self).decision_steps == old(self).decision_steps,
            final(self).max_steps == old(self).max_steps,
            final(self).game_over == old(self).game_over,
            final(self).winner == old(self).winner,
            final(self).current_turn_actions@ == old(self).current_turn_actions@,
    {
        if turn_player != self.last_turn_player {
            self.turns = self.turns + 1;
            self.last_turn_player = turn_player;
            self.energy_attached_this_turn = false;
        }
    }

    /// After a step: one more step counted; the game is over when the engine
    /// says so, with its winner, or when the steps run out.
    pub fn finish_step(&mut self, outcome: StepOutcome)
        requires
            old(self).steps < u32::MAX,
        ensures
            final(self).steps == old(self).steps + 1,
            final(self).winner == match outcome {
                StepOutcome::GameOver { winner } => Some(winner),
                _ => old(self).winner,
            },
            final(self).game_over == (old(self).game_over || outcome is GameOver || final(self).steps
                >= final(self).max_steps),
            final(self).turns == old(self).turns,
            final(self).decision_steps == old(self).decision_steps,
            final(self).max_steps == old(self).max_steps,
            final(self).last_turn_player == old(self).last_turn_player,
            final(self).energy_attached_this_turn == old(self).energy_attached_this_turn,
            final(self).current_turn_actions@ == old(self).current_turn_actions@,
    {
        self.steps = self.steps + 1;
        match outcome {
            StepOutcome::GameOver { winner } => {
                self.game_over = true;
                self.winner = Some(winner);
            },
            _ => {},
        }
        if self.steps >= self.max_steps {
            self.game_over = true;
        }
    }

    /// The counters agree with each other: a turn starts only at a step, and
    /// a winner ends the game.
    pub open spec fn counts_consistent(self) -> bool {
        &&& self.turns <= self.steps
        &&& self.winner is Some ==> self.game_over
    }

    /// One whole engine step: `turn_player` is the player to move before the
    /// step, `outcome` what the engine's step gave. The turn bookkeeping of
    /// `begin_step` and the step bookkeeping of `finish_step`, in that order;
    /// consistent counters stay consistent.
    pub fn record_step(&mut self, turn_player: PlayerId, outcome: StepOutcome)
        requires
            old(self).steps < u32::MAX,
            turn_player != old(self).last_turn_player ==> old(self).turns < u32::MAX,
        ensures
            final(self).last_turn_player == turn_player,
            final(self).turns == if turn_player != old(self).last_turn_player {
                old(self).turns + 1
            } else {
                old(self).turns as int
            },
            final(self).energy_attached_this_turn == (old(self).energy_attached_this_turn && turn_player
                == old(self).last_turn_player),
            final(self).steps == old(self).steps + 1,
            final(self).winner == match outcome {
                StepOutcome::GameOver { winner } => Some(winner),
                _ => old(self).winner,
            },
            final(self).game_over == (old(self).game_over || outcome is GameOver || final(self).steps
                >= final(self).max_steps),
            final(self).decision_steps == old(self).decision_steps,
            final(self).max_steps == old(self).max_steps,
            final(self).current_turn_actions@ == old(self).current_turn_actions@,
            old(self).counts_consistent() ==> final(self).counts_consistent(),
    {
        self.begin_step(turn_player);
        self.finish_step(outcome);
    }

    /// After the agent was shown the game: one more decision, unless the game is over.
    pub fn count_decision(&mut self)
        ensures
            final(self).decision_steps == if old(self).game_over {
                old(self).decision_steps as int
            } else if old(self).decision_steps < u32::MAX {
                old(self).decision_steps + 1
            } else {
                u32::MAX as int
            },
            final(self).steps == old(self).steps,
            final(self).turns == old(self).turns,
            final(self).max_steps == old(self).max_steps,
            final(self).game_over == old(self).game_over,
            final(self).winner == old(self).winner,
            final(self).last_turn_player == old(self).last_turn_player,
            final(self).energy_attached_this_turn == old(self).energy_attached_this_turn,
            final(self).current_turn_actions@ == old(self).current_turn_actions@,
    {
        if !self.game_over {
            self.decision_steps = self.decision_steps.saturating_add(1);
        }
    }

    /// The engine accepted the agent's answer: it joins this turn's actions,
    /// and an energy attachment is remembered for the rest of the turn.
    pub fn record_accepted(&mut self, answer: &str)
        ensures
            final(self).current_turn_actions@.len() == old(self).current_turn_actions@.len() + 1,
            final(self).current_turn_actions@.last()@ == answer@,
            final(self).current_turn_actions@.drop_last() == old(self).current_turn_actions@,
            final(self).energy_attached_this_turn == (old(self).energy_attached_this_turn
                || mentions_energy_attachment(answer@)),
            final(self).steps == old(self).steps,
            final(self).turns == old(self).turns,
            final(self).decision_steps == old(self).decision_steps,
            final(self).max_steps == old(self).max_steps,
            final(self).game_over == old(self).game_over,
            final(self).winner == old(self).winner,
            final(self).last_turn_player == old(self).last_turn_player,
    {
        let is_energy_attach = chars_contain(chars_of(answer).as_slice(), chars_of("AttachEnergy").as_slice());
        let ghost before = self.current_turn_actions@;
        self.current_turn_actions.push(answer.to_owned());
        assert(self.current_turn_actions@.drop_last() =~= before);
        if is_energy_attach {
            self.energy_attached_this_turn = true;
        }
    }

    /// Whether the game is over.
    pub fn is_game_over(&self) -> (r: bool)
        ensures
            r == self.game_over,
    {
        self.game_over
    }

    /// The winner, once there is one.
    pub fn get_winner(&self) -> (r: Option<PlayerId>)
        ensures
            r == self.winner,
    {
        self.winner
    }

    /// Why the game stopped, or that it has not.
    pub fn end_reason(&self) -> (r: EndReason)
        ensures
            r == end_reason_spec(self.winner, self.steps, self.max_steps),
    {
        end_reason(self.winner, self.steps, self.max_steps)
    }
}

/// What a game between two policies does after an engine step.
#[derive(Clone, Copy, Debug, PartialEq, Eq, Structural)]
pub enum RunnerStep {
    /// The game is over.
    Stop,
    /// The prompted player's policy answers; its answers are tried in order.
    AnswerPrompt { player: PlayerId },
    /// The turn player's policy proposes free actions, tried in order.
    TakeFreeActions { player: PlayerId },
    /// Nothing to do but step again.
    Next,
}

/// A game over stops the run; a prompt goes to the prompted player; a plain
/// step in the main or attack phase lets the turn player act.
pub open spec fn runner_step_spec(outcome: StepOutcome, turn_player: PlayerId, phase: Phase) -> RunnerStep {
    match outcome {
        StepOutcome::GameOver { .. } => RunnerStep::Stop,
        StepOutcome::Prompt { for_player } => RunnerStep::AnswerPrompt { player: for_player },
        StepOutcome::Continue => if phase == Phase::Main || phase == Phase::Attack {
            RunnerStep::TakeFreeActions { player: turn_player }
        } else {
            RunnerStep::Next
        },
        StepOutcome::Event => RunnerStep::Next,
    }
}

pub fn runner_step(outcome: StepOutcome, turn_player: PlayerId, phase: Phase) -> (r: RunnerStep)
    ensures
        r == runner_step_spec(outcome, turn_player, phase),
{
    match outcome {
        StepOutcome::GameOver { .. } => RunnerStep::Stop,
        StepOutcome::Prompt { for_player } => RunnerStep::AnswerPrompt { player: for_player },
        StepOutcome::Continue => if phase == Phase::Main || phase == Phase::Attack {
            RunnerStep::TakeFreeActions { player: turn_player }
        } else {
            RunnerStep::Next
        },
        StepOutcome::Event => RunnerStep::Next,
    }
}

/// The candidate the engine took, when candidates are tried in order and the
/// first accepted one is kept: `accepted[i]` is the engine's answer to the
/// `i`-th candidate; `None` when it took none.
pub fn first_accepted(accepted: &[bool]) -> (r: Option<usize>)
    ensures
        r is None <==> forall|i: int| 0 <= i < accepted@.len() ==> !accepted@[i],
        r matches Some(k) ==> k < accepted@.len() && accepted@[k as int] && forall|j: int|
            0 <= j < k ==> !accepted@[j],
{
    let mut i: usize = 0;
    while i < accepted.len()
        invariant
            i <= accepted@.len(),
            forall|j: int| 0 <= j < i ==> !accepted@[j],
        decreases accepted.len() - i,
    {
        if accepted[i] {
            return Some(i);
        }
        i = i + 1;
    }
    None
}

/// Whether the run goes on once a policy's candidates were tried: a prompt
/// that none of its answers settled ends the game; free actions never do.
pub fn goes_on_after(step: RunnerStep, any_accepted: bool) -> (r: bool)
    ensures
        r == match step {
            RunnerStep::Stop => false,
            RunnerStep::AnswerPrompt { .. } => any_accepted,
            _ => true,
        },
{
    match step {
        RunnerStep::Stop => false,
        RunnerStep::AnswerPrompt { .. } => any_accepted,
        _ => true,
    }
}

/// The win condition of a finished game: the reason of the last game-ended
/// event in the log. `reasons[i]` is that reason for a game-ended event and
/// `None` for any other event.
pub open spec fn last_win_condition_spec(reasons: Seq<Option<Seq<char>>>) -> Option<Seq<char>>
    decreases reasons.len(),
{
    if reasons.len() == 0 {
        None
    } else {
        match reasons.last() {
            Some(c) => Some(c),
            None => last_win_condition_spec(reasons.drop_last()),
        }
    }
}

pub fn last_win_condition(reasons: &[Option<String>]) -> (r: Option<String>)
    ensures
        opt_view(r) == last_win_condition_spec(reasons@.map_values(|o: Option<String>| opt_view(o))),
{
    let ghost vs = reasons@.map_values(|o: Option<String>| opt_view(o));
    let mut i: usize = reasons.len();
    assert(vs.take(i as int) =~= vs);
    while i > 0
        invariant
            i <= reasons@.len(),
            vs == reasons@.map_values(|o: Option<String>| opt_view(o)),
            last_win_condition_spec(vs) == last_win_condition_spec(vs.take(i as int)),
        decreases i,
    {
        let ghost t = vs.take(i as int);
        assert(t.drop_last() =~= vs.take(i - 1));
        match &reasons[i - 1] {
            Some(c) => {
                return Some(c.clone());
            },
            None => {},
        }
        i = i - 1;
    }
    assert(vs.take(0) =~= Seq::<Option<Seq<char>>>::empty());
    None
}

/// An optional string, taken by its characters.
pub open spec fn opt_view(o: Option<String>) -> Option<Seq<char>> {
    match o {
        Some(s) => Some(s@),
        None => None,
    }
}

/// The turn count of a game between two policies: a change of the engine's
/// turn number starts a new turn.
pub fn count_turn(turns: u32, last_turn: u32, turn_number: u32) -> (r: (u32, u32))
    requires
        turn_number != last_turn ==> turns < u32::MAX,
    ensures
        r.1 == turn_number,
        r.0 == if turn_number != last_turn {
            turns + 1
        } else {
            turns as int
        },
{
    if turn_number != last_turn {
        (turns + 1, turn_number)
    } else {
        (turns, last_turn)
    }
}

/// Why a batch of games cannot be run.
#[derive(Clone, Copy, Debug, PartialEq, Eq, Structural)]
pub enum BatchError {
    NoGames,
    SeedCountMismatch,
}

/// A batch needs at least one game and one seed of each kind per game.
pub fn validate_seeds(game_seeds: usize, p1_ai_seeds: usize, p2_ai_seeds: usize) -> (r: Result<usize, BatchError>)
    ensures
        game_seeds == 0 <==> r == Err::<usize, BatchError>(BatchError::NoGames),
        r == Err::<usize, BatchError>(BatchError::SeedCountMismatch) <==> (game_seeds != 0 && (p1_ai_seeds
            != game_seeds || p2_ai_seeds != game_seeds)),
        r is Ok <==> (game_seeds != 0 && p1_ai_seeds == game_seeds && p2_ai_seeds == game_seeds),
        r matches Ok(n) ==> n == game_seeds,
{
    if game_seeds == 0 {
        return Err(BatchError::NoGames);
    }
    if p1_ai_seeds != game_seeds || p2_ai_seeds != game_seeds {
        return Err(BatchError::SeedCountMismatch);
    }
    Ok(game_seeds)
}

/// The number of workers: as asked, or what the machine offers (8 when it
/// cannot tell) when 0 is asked; at least 1.
pub fn worker_count(max_workers: usize, available: Option<usize>) -> (r: usize)
    ensures
        r >= 1,
        max_workers > 0 ==> r == max_workers,
        max_workers == 0 ==> r == match available {
            Some(a) => if a > 1 {
                a
            } else {
                1
            },
            None => 8,
        },
{
    let w = if max_workers == 0 {
        match available {
            Some(a) => a,
            None => 8,
        }
    } else {
        max_workers
    };
    if w > 1 {
        w
    } else {
        1
    }
}

/// The games whose full replays are kept: every `stride`-th game from the
/// first, at most `max_samples` of them; none when either is 0.
pub open spec fn is_sample_of(r: Seq<usize>, n: usize, stride: usize, max_samples: usize) -> bool {
    &&& stride == 0 || max_samples == 0 ==> r.len() == 0
    &&& stride > 0 && max_samples > 0 ==> {
        &&& r.len() <= max_samples
        &&& forall|k: int| 0 <= k < r.len() ==> #[trigger] r[k] == k * stride && r[k] < n
        &&& r.len() < max_samples ==> r.len() * stride >= n
    }
}

pub fn sample_indices(n: usize, stride: usize, max_samples: usize) -> (r: Vec<usize>)
    ensures
        is_sample_of(r@, n, stride, max_samples),
{
    let mut sample: Vec<usize> = Vec::new();
    if stride == 0 || max_samples == 0 {
        return sample;
    }
    let mut next: usize = 0;
    assert(sample@.len() * stride == 0) by (nonlinear_arith)
        requires
            sample@.len() == 0,
    ;
    while next < n && sample.len() < max_samples
        invariant
            stride > 0,
            max_samples > 0,
            sample@.len() <= max_samples,
            next == sample@.len() * stride,
            forall|k: int| 0 <= k < sample@.len() ==> #[trigger] sample@[k] == k * stride && sample@[k] < n,
        decreases n - next,
    {
        let ghost len0 = sample@.len();
        sample.push(next);
        assert(sample@[len0 as int] == len0 * stride);
        if stride > n - next {
            assert(sample@.len() * stride >= n) by (nonlinear_arith)
                requires
                    sample@.len() == len0 + 1,
                    next == len0 * stride,
                    next + stride > n,
            ;
            return sample;
        }
        assert((len0 + 1) * stride == len0 * stride + stride) by (nonlinear_arith);
        next = next + stride;
    }
    sample
}

/// Counts by name: the count of `k`, 0 when it is not listed.
pub open spec fn count_of(c: Seq<(Seq<char>, int)>, k: Seq<char>) -> int {
    if exists|i: int| 0 <= i < c.len() && #[trigger] c[i].0 == k {
        c[choose|i: int| 0 <= i < c.len() && #[trigger] c[i].0 == k].1
    } else {
        0
    }
}

/// The names come in strictly increasing order.
pub open spec fn sorted_by_name(c: Seq<(Seq<char>, int)>) -> bool {
    forall|i: int, j: int| 0 <= i < j < c.len() ==> seq_less(#[trigger] c[i].0, #[trigger] c[j].0)
}

/// In a list sorted by name, the count of a listed name is the one beside it.
pub proof fn lemma_count_at(c: Seq<(Seq<char>, int)>, i: int)
    requires
        sorted_by_name(c),
        0 <= i < c.len(),
    ensures
        count_of(c, c[i].0) == c[i].1,
{
    let k = c[i].0;
    assert(c[i].0 == k);
    let j = choose|j: int| 0 <= j < c.len() && #[trigger] c[j].0 == k;
    if j < i {
        lemma_seq_less_ne(c[j].0, c[i].0);
    } else if i < j {
        lemma_seq_less_ne(c[i].0, c[j].0);
    }
}

/// Every listed name has ended at least one game.
pub open spec fn counts_positive(c: Seq<(Seq<char>, int)>) -> bool {
    forall|i: int| 0 <= i < c.len() ==> #[trigger] c[i].1 >= 1
}

/// In a list sorted by name with positive counts, a name is listed exactly
/// when its count is positive.
pub proof fn lemma_listed_iff_counted(c: Seq<(Seq<char>, int)>, k: Seq<char>)
    requires
        sorted_by_name(c),
        counts_positive(c),
    ensures
        (exists|i: int| 0 <= i < c.len() && #[trigger] c[i].0 == k) <==> count_of(c, k) >= 1,
{
    if exists|i: int| 0 <= i < c.len() && #[trigger] c[i].0 == k {
        let i = choose|i: int| 0 <= i < c.len() && #[trigger] c[i].0 == k;
        lemma_count_at(c, i);
    }
}

/// The name-count pairs as values.
pub open spec fn counts_view(c: Seq<(String, usize)>) -> Seq<(Seq<char>, int)> {
    c.map_values(|e: (String, usize)| (e.0@, e.1 as int))
}

/// What a batch of games between two policies adds up to.
pub ghost struct TallyView {
    pub p1_wins: int,
    pub p2_wins: int,
    pub draws: int,
    pub sum_turns: int,
    pub sum_steps: int,
    pub conditions: Seq<(Seq<char>, int)>,
}

/// The results of a batch of games: wins of each side, draws, turns and
/// steps played, and how often each win condition ended a game.
pub struct BatchTally {
    p1_wins: usize,
    p2_wins: usize,
    draws: usize,
    sum_turns: u64,
    sum_steps: u64,
    conditions: Vec<(String, usize)>,
}

impl View for BatchTally {
    type V = TallyView;

    closed spec fn view(&self) -> TallyView {
        TallyView {
            p1_wins: self.p1_wins as int,
            p2_wins: self.p2_wins as int,
            draws: self.draws as int,
            sum_turns: self.sum_turns as int,
            sum_steps: self.sum_steps as int,
            conditions: counts_view(self.conditions@),
        }
    }
}

/// The number of games a tally has counted.
pub open spec fn games_of(t: TallyView) -> int {
    t.p1_wins + t.p2_wins + t.draws
}

impl BatchTally {
    #[verifier::type_invariant]
    closed spec fn wf(self) -> bool {
        &&& sorted_by_name(counts_view(self.conditions@))
        &&& counts_positive(counts_view(self.conditions@))
        &&& forall|i: int| 0 <= i < self.conditions@.len() ==> #[trigger] self.conditions@[i].1 <= self.p1_wins + self.p2_wins + self.draws
        &&& self.p1_wins + self.p2_wins + self.draws <= usize::MAX
    }

    /// Nothing counted yet.
    pub fn new() -> (r: BatchTally)
        ensures
            r@.p1_wins == 0,
            r@.p2_wins == 0,
            r@.draws == 0,
            r@.sum_turns == 0,
            r@.sum_steps == 0,
            r@.conditions.len() == 0,
    {
        let r = BatchTally { p1_wins: 0, p2_wins: 0, draws: 0, sum_turns: 0, sum_steps: 0, conditions: Vec::new() };
        assert(counts_view(r.conditions@) =~= Seq::<(Seq<char>, int)>::empty());
        r
    }

    pub fn p1_wins(&self) -> (r: usize)
        ensures
            r == self@.p1_wins,
    {
        self.p1_wins
    }

    pub fn p2_wins(&self) -> (r: usize)
        ensures
            r == self@.p2_wins,
    {
        self.p2_wins
    }

    pub fn draws(&self) -> (r: usize)
        ensures
            r == self@.draws,
    {
        self.draws
    }

    pub fn sum_turns(&self) -> (r: u64)
        ensures
            r == self@.sum_turns,
    {
        self.sum_turns
    }

    pub fn sum_steps(&self) -> (r: u64)
        ensures
            r == self@.sum_steps,
    {
        self.sum_steps
    }

    /// The games counted so far.
    pub fn games(&self) -> (r: usize)
        ensures
            r == games_of(self@),
    {
        proof {
            use_type_invariant(self);
        }
        self.p1_wins + self.p2_wins + self.draws
    }

    /// Counts one game: its winner (none for a draw), how it was won, and how
    /// many turns and steps it took.
    pub fn record(&mut self, winner: Option<PlayerId>, win_condition: Option<String>, turns: u32, steps: u32)
        requires
            games_of(old(self)@) < usize::MAX,
            old(self)@.sum_turns + turns <= u64::MAX,
            old(self)@.sum_steps + steps <= u64::MAX,
        ensures
            final(self)@.p1_wins == old(self)@.p1_wins + if winner == Some(PlayerId::P1) {
                1int
            } else {
                0int
            },
            final(self)@.p2_wins == old(self)@.p2_wins + if winner == Some(PlayerId::P2) {
                1int
            } else {
                0int
            },
            final(self)@.draws == old(self)@.draws + if winner is None {
                1int
            } else {
                0int
            },
            games_of(final(self)@) == games_of(old(self)@) + 1,
            final(self)@.sum_turns == old(self)@.sum_turns + turns,
            final(self)@.sum_steps == old(self)@.sum_steps + steps,
            forall|k: Seq<char>|
                #![trigger count_of(final(self)@.conditions, k)]
                count_of(final(self)@.conditions, k) == count_of(old(self)@.conditions, k) + match win_condition {
                    Some(c) => if c@ == k {
                        1int
                    } else {
                        0int
                    },
                    None => 0int,
                },
            sorted_by_name(final(self)@.conditions),
            counts_positive(final(self)@.conditions),
    {
        proof {
            use_type_invariant(&*self);
        }
        let mut p1_wins = self.p1_wins;
        let mut p2_wins = self.p2_wins;
        let mut draws = self.draws;
        match winner {
            Some(PlayerId::P1) => {
                p1_wins = p1_wins + 1;
            },
            Some(PlayerId::P2) => {
                p2_wins = p2_wins + 1;
            },
            None => {
                draws = draws + 1;
            },
        }
        let mut conditions: Vec<(String, usize)> = Vec::new();
        std::mem::swap(&mut conditions, &mut self.conditions);
        let ghost before = counts_view(conditions@);
        match win_condition {
            Some(c) => {
                count_condition(&mut conditions, c, self.p1_wins + self.p2_wins + self.draws);
            },
            None => {},
        }
        *self = BatchTally {
            p1_wins,
            p2_wins,
            draws,
            sum_turns: self.sum_turns + turns as u64,
            sum_steps: self.sum_steps + steps as u64,
            conditions,
        };
    }

    /// The win conditions with their counts, by name.
    pub fn condition_counts(&self) -> (r: Vec<(String, usize)>)
        ensures
            counts_view(r@) == self@.conditions,
            sorted_by_name(counts_view(r@)),
            counts_positive(counts_view(r@)),
    {
        proof {
            use_type_invariant(self);
        }
        let mut out: Vec<(String, usize)> = Vec::new();
        let mut i: usize = 0;
        while i < self.conditions.len()
            invariant
                i <= self.conditions@.len(),
                counts_view(out@) == counts_view(self.conditions@).take(i as int),
            decreases self.conditions.len() - i,
        {
            let name = self.conditions[i].0.clone();
            let ghost prev = out@;
            out.push((name, self.conditions[i].1));
            proof {
                assert(counts_view(out@) =~= counts_view(prev).push((name@, self.conditions@[i as int].1 as int)));
                assert(counts_view(self.conditions@).take(i + 1) =~= counts_view(self.conditions@).take(i as int).push(
                    counts_view(self.conditions@)[i as int],
                ));
            }
            i = i + 1;
        }
        assert(counts_view(self.conditions@).take(self.conditions@.len() as int) =~= counts_view(self.conditions@));
        out
    }
}

/// How one game of a batch ended: its winner (none for a draw), how it was
/// won, and how many turns and steps it took.
pub struct GameSummary {
    pub winner: Option<PlayerId>,
    pub win_condition: Option<String>,
    pub turns: u32,
    pub steps: u32,
}

/// How many of the games `w` won (`None`: how many were drawn).
pub open spec fn wins_of(games: Seq<GameSummary>, w: Option<PlayerId>) -> int
    decreases games.len(),
{
    if games.len() == 0 {
        0
    } else {
        wins_of(games.drop_last(), w) + if games.last().winner == w {
            1int
        } else {
            0int
        }
    }
}

/// How many of the games ended by the win condition `k`.
pub open spec fn condition_total(games: Seq<GameSummary>, k: Seq<char>) -> int
    decreases games.len(),
{
    if games.len() == 0 {
        0
    } else {
        condition_total(games.drop_last(), k) + if games.last().win_condition matches Some(c) && c@ == k {
            1int
        } else {
            0int
        }
    }
}

/// The turns the games took, added up.
pub open spec fn total_turns(games: Seq<GameSummary>) -> int
    decreases games.len(),
{
    if games.len() == 0 {
        0
    } else {
        total_turns(games.drop_last()) + games.last().turns
    }
}

/// The steps the games took, added up.
pub open spec fn total_steps(games: Seq<GameSummary>) -> int
    decreases games.len(),
{
    if games.len() == 0 {
        0
    } else {
        total_steps(games.drop_last()) + games.last().steps
    }
}

/// A prefix of the games took no more turns and steps than all of them.
proof fn lemma_totals_prefix(games: Seq<GameSummary>, i: int)
    requires
        0 <= i <= games.len(),
    ensures
        total_turns(games.take(i)) <= total_turns(games),
        total_steps(games.take(i)) <= total_steps(games),
    decreases games.len() - i,
{
    if i < games.len() {
        lemma_totals_prefix(games, i + 1);
        assert(games.take(i + 1).drop_last() =~= games.take(i));
    } else {
        assert(games.take(i) =~= games);
    }
}

/// The tallies of a whole batch: every game counted once as a win of P1, a
/// win of P2 or a draw; the turns and steps added up; and each win condition
/// listed once, by name, with the number of games it ended, exactly the
/// conditions that ended some game.
pub fn tally_batch(games: &[GameSummary]) -> (r: BatchTally)
    requires
        games@.len() < usize::MAX,
        total_turns(games@) <= u64::MAX,
        total_steps(games@) <= u64::MAX,
    ensures
        r@.p1_wins == wins_of(games@, Some(PlayerId::P1)),
        r@.p2_wins == wins_of(games@, Some(PlayerId::P2)),
        r@.draws == wins_of(games@, None),
        games_of(r@) == games@.len(),
        r@.sum_turns == total_turns(games@),
        r@.sum_steps == total_steps(games@),
        forall|k: Seq<char>| #![trigger count_of(r@.conditions, k)] count_of(r@.conditions, k) == condition_total(games@, k),
        sorted_by_name(r@.conditions),
        counts_positive(r@.conditions),
        forall|k: Seq<char>|
            (exists|i: int| 0 <= i < r@.conditions.len() && #[trigger] r@.conditions[i].0 == k) <==> condition_total(
                games@,
                k,
            ) >= 1,
{
    let mut tally = BatchTally::new();
    let mut i: usize = 0;
    while i < games.len()
        invariant
            i <= games@.len(),
            games@.len() < usize::MAX,
            total_turns(games@) <= u64::MAX,
            total_steps(games@) <= u64::MAX,
            tally@.p1_wins == wins_of(games@.take(i as int), Some(PlayerId::P1)),
            tally@.p2_wins == wins_of(games@.take(i as int), Some(PlayerId::P2)),
            tally@.draws == wins_of(games@.take(i as int), None),
            games_of(tally@) == i,
            tally@.sum_turns == total_turns(games@.take(i as int)),
            tally@.sum_steps == total_steps(games@.take(i as int)),
            forall|k: Seq<char>| #![trigger count_of(tally@.conditions, k)] count_of(tally@.conditions, k) == condition_total(games@.take(i as int), k),
            sorted_by_name(tally@.conditions),
            counts_positive(tally@.conditions),
        decreases games.len() - i,
    {
        let g = &games[i];
        let cond = match &g.win_condition {
            Some(c) => Some(c.clone()),
            None => None,
        };
        proof {
            lemma_totals_prefix(games@, i + 1);
            assert(games@.take(i + 1).drop_last() =~= games@.take(i as int));
            assert(games@.take(i + 1).last() == games@[i as int]);
        }
        tally.record(g.winner, cond, g.turns, g.steps);
        i = i + 1;
    }
    assert(games@.take(games@.len() as int) =~= games@);
    proof {
        assert forall|k: Seq<char>|
            (exists|i: int| 0 <= i < tally@.conditions.len() && #[trigger] tally@.conditions[i].0 == k) <==> condition_total(
                games@,
                k,
            ) >= 1 by {
            lemma_listed_iff_counted(tally@.conditions, k);
            assert(count_of(tally@.conditions, k) == condition_total(games@, k));
        }
    }
    tally
}

/// Adds one to the count of `c`, listing it in name order when it is new.
fn count_condition(conditions: &mut Vec<(String, usize)>, c: String, games: usize)
    requires
        sorted_by_name(counts_view(old(conditions)@)),
        counts_positive(counts_view(old(conditions)@)),
        forall|i: int| 0 <= i < old(conditions)@.len() ==> #[trigger] old(conditions)@[i].1 <= games,
        games < usize::MAX,
    ensures
        sorted_by_name(counts_view(final(conditions)@)),
        counts_positive(counts_view(final(conditions)@)),
        forall|i: int| 0 <= i < final(conditions)@.len() ==> #[trigger] final(conditions)@[i].1 <= games + 1,
        forall|k: Seq<char>|
            #![trigger count_of(counts_view(final(conditions)@), k)]
            count_of(counts_view(final(conditions)@), k) == count_of(counts_view(old(conditions)@), k) + if c@ == k {
                1int
            } else {
                0int
            },
{
    let ghost old_c = counts_view(conditions@);
    let mut p: usize = 0;
    while p < conditions.len() && str_less(conditions[p].0.as_str(), c.as_str())
        invariant
            p <= conditions@.len(),
            old_c == counts_view(conditions@),
            forall|i: int| 0 <= i < p ==> seq_less(#[trigger] old_c[i].0, c@),
        decreases conditions.len() - p,
    {
        p = p + 1;
    }
    assert(forall|i: int| 0 <= i < old_c.len() ==> #[trigger] old_c[i].0 == conditions@[i].0@);
    if p < conditions.len() && conditions[p].0 == c {
        let count = conditions[p].1;
        let name = conditions[p].0.clone();
        conditions.set(p, (name, count + 1));
        let ghost new_c = counts_view(conditions@);
        proof {
            assert(new_c =~= old_c.update(p as int, (c@, count + 1)));
            assert(sorted_by_name(new_c)) by {
                assert forall|i: int, j: int| 0 <= i < j < new_c.len() implies seq_less(#[trigger] new_c[i].0, #[trigger] new_c[j].0) by {
                    assert(new_c[i].0 == old_c[i].0);
                    assert(new_c[j].0 == old_c[j].0);
                }
            }
            assert forall|k: Seq<char>| #[trigger] count_of(new_c, k) == count_of(old_c, k) + if c@ == k {
                1int
            } else {
                0int
            } by {
                if k == c@ {
                    lemma_count_at(new_c, p as int);
                    lemma_count_at(old_c, p as int);
                } else if exists|i: int| 0 <= i < old_c.len() && #[trigger] old_c[i].0 == k {
                    let i = choose|i: int| 0 <= i < old_c.len() && #[trigger] old_c[i].0 == k;
                    assert(new_c[i].0 == k);
                    lemma_count_at(new_c, i);
                    lemma_count_at(old_c, i);
                } else {
                    assert forall|i: int| 0 <= i < new_c.len() implies #[trigger] new_c[i].0 != k by {
                        if i != p {
                            assert(new_c[i].0 == old_c[i].0);
                        }
                    }
                }
            }
        }
    } else {
        proof {
            if p < old_c.len() {
                assert(!seq_less(old_c[p as int].0, c@));
                assert(old_c[p as int].0 != c@);
                lemma_seq_less_total(old_c[p as int].0, c@);
            }
        }
        conditions.insert(p, (c, 1));
        let ghost new_c = counts_view(conditions@);
        proof {
            let x = (c@, 1int);
            assert(new_c =~= old_c.insert(p as int, x));
            assert forall|j: int| p < j < new_c.len() implies seq_less(c@, #[trigger] new_c[j].0) by {
                assert(new_c[j] == old_c[j - 1]);
                if j - 1 > p {
                    assert(seq_less(old_c[p as int].0, old_c[j - 1].0));
                    lemma_seq_less_transitive(c@, old_c[p as int].0, old_c[j - 1].0);
                }
            }
            assert(sorted_by_name(new_c)) by {
                assert forall|i: int, j: int| 0 <= i < j < new_c.len() implies seq_less(#[trigger] new_c[i].0, #[trigger] new_c[j].0) by {
                    if j < p {
                        assert(new_c[i] == old_c[i] && new_c[j] == old_c[j]);
                    } else if j == p {
                        assert(new_c[i] == old_c[i]);
                    } else if i < p {
                        assert(new_c[i] == old_c[i]);
                        assert(seq_less(c@, new_c[j].0));
                        lemma_seq_less_transitive(new_c[i].0, c@, new_c[j].0);
                    } else if i == p {
                    } else {
                        assert(new_c[i] == old_c[i - 1] && new_c[j] == old_c[j - 1]);
                    }
                }
            }
            assert forall|k: Seq<char>| #[trigger] count_of(new_c, k) == count_of(old_c, k) + if c@ == k {
                1int
            } else {
                0int
            } by {
                if k == c@ {
                    lemma_count_at(new_c, p as int);
                    assert forall|i: int| 0 <= i < old_c.len() implies #[trigger] old_c[i].0 != k by {
                        if i < p {
                            lemma_seq_less_ne(old_c[i].0, c@);
                        } else {
                            assert(new_c[i + 1] == old_c[i]);
                            lemma_seq_less_ne(c@, old_c[i].0);
                        }
                    }
                } else if exists|i: int| 0 <= i < old_c.len() && #[trigger] old_c[i].0 == k {
                    let i = choose|i: int| 0 <= i < old_c.len() && #[trigger] old_c[i].0 == k;
                    let ni = if i < p {
                        i
                    } else {
                        i + 1
                    };
                    assert(new_c[ni] == old_c[i]);
                    lemma_count_at(new_c, ni);
                    lemma_count_at(old_c, i);
                } else {
                    assert forall|i: int| 0 <= i < new_c.len() implies #[trigger] new_c[i].0 != k by {
                        if i < p {
                            assert(new_c[i] == old_c[i]);
                        } else if i > p {
                            assert(new_c[i] == old_c[i - 1]);
                        }
                    }
                }
            }
        }
    }
}

} // verus!
