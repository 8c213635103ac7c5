use tcg_bench::model::{CardInstanceId, Phase, PlayerId, Prompt};
use tcg_bench::session::{
    first_accepted, goes_on_after, last_win_condition, runner_step, RunnerStep,
    agent_must_act, count_turn, end_reason, end_reason_name, new_active_fallback, opponent_duty, sample_indices, tally_batch,
    validate_seeds, worker_count, BatchError, BatchTally, EndReason, GameSummary, OpponentDuty, PtcgGame, StepOutcome,
};

#[test]
fn session_counts_turns_and_steps() {
    let mut s = PtcgGame::new(3);
    s.begin_step(PlayerId::P1);
    assert_eq!(s.turns, 0);
    s.finish_step(StepOutcome::Continue);
    s.begin_step(PlayerId::P2);
    assert_eq!(s.turns, 1);
    s.finish_step(StepOutcome::Event);
    assert!(!s.game_over);
    s.finish_step(StepOutcome::Continue);
    assert_eq!(s.steps, 3);
    assert!(s.game_over);
    assert_eq!(s.end_reason(), EndReason::MaxSteps);
}

#[test]
fn session_records_winner() {
    let mut s = PtcgGame::new(100);
    s.finish_step(StepOutcome::GameOver { winner: PlayerId::P2 });
    assert!(s.game_over);
    assert_eq!(s.winner, Some(PlayerId::P2));
    assert_eq!(s.end_reason(), EndReason::GameOver);
    s.count_decision();
    assert_eq!(s.decision_steps, 0);
}

#[test]
fn session_energy_flag_resets_each_turn() {
    let mut s = PtcgGame::new(100);
    s.record_accepted("{\"action\": \"AttachEnergy\", \"energy_id\": 3}");
    assert!(s.energy_attached_this_turn);
    assert_eq!(s.current_turn_actions.len(), 1);
    s.record_accepted("{\"action\": \"EndTurn\"}");
    assert!(s.energy_attached_this_turn);
    s.begin_step(PlayerId::P2);
    assert!(!s.energy_attached_this_turn);
    s.count_decision();
    assert_eq!(s.decision_steps, 1);
}

#[test]
fn end_reasons() {
    assert_eq!(end_reason(Some(PlayerId::P1), 5, 3), EndReason::GameOver);
    assert_eq!(end_reason(None, 3, 3), EndReason::MaxSteps);
    assert_eq!(end_reason(None, 2, 3), EndReason::InProgress);
    assert_eq!(end_reason_name(EndReason::MaxSteps), "MaxSteps");
}

#[test]
fn opponent_duties() {
    assert_eq!(opponent_duty(StepOutcome::Prompt { for_player: PlayerId::P2 }, PlayerId::P1, true, Phase::Setup), OpponentDuty::AnswerPrompt);
    assert_eq!(opponent_duty(StepOutcome::Prompt { for_player: PlayerId::P1 }, PlayerId::P2, true, Phase::Main), OpponentDuty::Nothing);
    assert_eq!(opponent_duty(StepOutcome::Continue, PlayerId::P2, false, Phase::Attack), OpponentDuty::TakeFreeAction);
    assert_eq!(opponent_duty(StepOutcome::Continue, PlayerId::P2, false, Phase::Draw), OpponentDuty::Nothing);
    assert_eq!(opponent_duty(StepOutcome::Continue, PlayerId::P1, false, Phase::Main), OpponentDuty::Nothing);
}

#[test]
fn agent_turns() {
    assert!(agent_must_act(false, false, PlayerId::P1, Phase::Main));
    assert!(!agent_must_act(false, false, PlayerId::P1, Phase::Draw));
    assert!(agent_must_act(false, true, PlayerId::P2, Phase::Draw));
    assert!(!agent_must_act(false, false, PlayerId::P2, Phase::Main));
    assert!(agent_must_act(true, false, PlayerId::P2, Phase::Main));
}

#[test]
fn new_active_fallback_reads_answer() {
    let p = Prompt::ChooseNewActive { player: PlayerId::P1, options: vec![CardInstanceId::new(5), CardInstanceId::new(9)] };
    assert_eq!(new_active_fallback(&p, "{\"card_id\": 9}"), Some(CardInstanceId::new(9)));
    assert_eq!(new_active_fallback(&p, "{\"card_id\": 7}"), None);
    let other = Prompt::ChooseStartingActive { options: vec![CardInstanceId::new(9)] };
    assert_eq!(new_active_fallback(&other, "{\"card_id\": 9}"), None);
}

#[test]
fn turn_numbers_count_turns() {
    assert_eq!(count_turn(4, 7, 8), (5, 8));
    assert_eq!(count_turn(4, 7, 7), (4, 7));
}

#[test]
fn batch_validation() {
    assert_eq!(validate_seeds(0, 0, 0), Err(BatchError::NoGames));
    assert_eq!(validate_seeds(3, 2, 3), Err(BatchError::SeedCountMismatch));
    assert_eq!(validate_seeds(3, 3, 4), Err(BatchError::SeedCountMismatch));
    assert_eq!(validate_seeds(3, 3, 3), Ok(3));
    assert_eq!(worker_count(0, Some(4)), 4);
    assert_eq!(worker_count(0, None), 8);
    assert_eq!(worker_count(0, Some(0)), 1);
    assert_eq!(worker_count(2, Some(16)), 2);
}

#[test]
fn samples_every_stride() {
    assert_eq!(sample_indices(10, 3, 10), vec![0, 3, 6, 9]);
    assert_eq!(sample_indices(10, 3, 2), vec![0, 3]);
    assert_eq!(sample_indices(10, 0, 2), Vec::<usize>::new());
    assert_eq!(sample_indices(10, 4, 0), Vec::<usize>::new());
    assert_eq!(sample_indices(1, 5, 5), vec![0]);
}

#[test]
fn tally_counts_each_game_once() {
    let mut t = BatchTally::new();
    t.record(Some(PlayerId::P1), Some("Prizes".to_string()), 10, 100);
    t.record(None, None, 20, 200);
    t.record(Some(PlayerId::P2), Some("DeckOut".to_string()), 30, 300);
    t.record(Some(PlayerId::P1), Some("Prizes".to_string()), 5, 50);
    assert_eq!(t.p1_wins(), 2);
    assert_eq!(t.p2_wins(), 1);
    assert_eq!(t.draws(), 1);
    assert_eq!(t.games(), 4);
    assert_eq!(t.sum_turns(), 65);
    assert_eq!(t.sum_steps(), 650);
    assert_eq!(t.condition_counts(), vec![("DeckOut".to_string(), 1), ("Prizes".to_string(), 2)]);
}

fn game(winner: Option<PlayerId>, cond: Option<&str>, turns: u32, steps: u32) -> GameSummary {
    GameSummary { winner, win_condition: cond.map(|c| c.to_string()), turns, steps }
}

#[test]
fn batch_tally_over_games() {
    let games = vec![
        game(Some(PlayerId::P2), Some("Prizes"), 12, 120),
        game(None, None, 40, 500),
        game(Some(PlayerId::P1), Some("NoPokemon"), 8, 90),
        game(Some(PlayerId::P2), Some("Prizes"), 10, 100),
        game(Some(PlayerId::P1), Some("DeckOut"), 30, 310),
    ];
    let t = tally_batch(&games);
    assert_eq!(t.p1_wins(), 2);
    assert_eq!(t.p2_wins(), 2);
    assert_eq!(t.draws(), 1);
    assert_eq!(t.games(), 5);
    assert_eq!(t.sum_turns(), 100);
    assert_eq!(t.sum_steps(), 1120);
    assert_eq!(
        t.condition_counts(),
        vec![("DeckOut".to_string(), 1), ("NoPokemon".to_string(), 1), ("Prizes".to_string(), 2)]
    );
}

#[test]
fn batch_of_draws_lists_no_condition() {
    let t = tally_batch(&[game(None, None, 3, 30), game(None, None, 4, 40)]);
    assert_eq!(t.draws(), 2);
    assert_eq!(t.games(), 2);
    assert!(t.condition_counts().is_empty());
    let mut r = BatchTally::new();
    r.record(None, None, 1, 1);
    assert!(r.condition_counts().is_empty());
    r.record(Some(PlayerId::P1), Some(String::new()), 1, 1);
    assert_eq!(r.condition_counts(), vec![(String::new(), 1)]);
}

#[test]
fn whole_steps_count_turns_and_steps() {
    let mut s = PtcgGame::new(10);
    s.record_step(PlayerId::P1, StepOutcome::Continue);
    assert_eq!((s.turns, s.steps), (0, 1));
    s.record_step(PlayerId::P2, StepOutcome::Event);
    assert_eq!((s.turns, s.steps), (1, 2));
    assert_eq!(s.last_turn_player, PlayerId::P2);
    s.record_step(PlayerId::P2, StepOutcome::GameOver { winner: PlayerId::P2 });
    assert_eq!((s.turns, s.steps), (1, 3));
    assert!(s.game_over);
    assert_eq!(s.winner, Some(PlayerId::P2));
}

#[test]
fn runner_steps_follow_the_engine() {
    assert_eq!(runner_step(StepOutcome::GameOver { winner: PlayerId::P1 }, PlayerId::P2, Phase::Main), RunnerStep::Stop);
    assert_eq!(
        runner_step(StepOutcome::Prompt { for_player: PlayerId::P2 }, PlayerId::P1, Phase::Draw),
        RunnerStep::AnswerPrompt { player: PlayerId::P2 }
    );
    assert_eq!(
        runner_step(StepOutcome::Continue, PlayerId::P1, Phase::Attack),
        RunnerStep::TakeFreeActions { player: PlayerId::P1 }
    );
    assert_eq!(runner_step(StepOutcome::Continue, PlayerId::P1, Phase::Draw), RunnerStep::Next);
    assert_eq!(runner_step(StepOutcome::Event, PlayerId::P1, Phase::Main), RunnerStep::Next);
}

#[test]
fn candidates_tried_in_order() {
    assert_eq!(first_accepted(&[false, false, true, true]), Some(2));
    assert_eq!(first_accepted(&[true]), Some(0));
    assert_eq!(first_accepted(&[false, false]), None);
    assert_eq!(first_accepted(&[]), None);
    let prompt = RunnerStep::AnswerPrompt { player: PlayerId::P1 };
    assert!(goes_on_after(prompt, true));
    assert!(!goes_on_after(prompt, false));
    assert!(goes_on_after(RunnerStep::TakeFreeActions { player: PlayerId::P2 }, false));
    assert!(!goes_on_after(RunnerStep::Stop, true));
}

#[test]
fn win_condition_from_last_game_end() {
    let log = vec![None, Some("Prizes".to_string()), None, Some("DeckOut".to_string()), None];
    assert_eq!(last_win_condition(&log), Some("DeckOut".to_string()));
    assert_eq!(last_win_condition(&[None, None]), None);
    assert_eq!(last_win_condition(&[]), None);
}
