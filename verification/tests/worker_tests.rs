use azul::edge::{Edge, ProbabilisticOutcome};
use azul::game_state::GameState;
use azul::move_::Move;
use azul::move_list::MoveList;
use azul::search_worker::{WorkerAction, WorkerCommand, WorkerState, INITIAL_ITERATIONS_PER_STEP};
use rand::rngs::SmallRng;
use rand::SeedableRng;

#[test]
fn starting_takes_the_root_and_resets_the_statistics() {
    let state = WorkerState::new();
    assert!(!state.wants_step());
    let (next, actions) = state.on_command(WorkerCommand::StartWorking);
    assert!(next.running && next.holds_root && next.wants_step());
    assert_eq!(next.iterations_per_step, INITIAL_ITERATIONS_PER_STEP);
    assert_eq!(next.completed_iterations, 0);
    assert_eq!(actions.len(), 3);
    assert!(matches!(actions[0], WorkerAction::RestartClock));
    assert!(matches!(actions[1], WorkerAction::AcquireRoot));
    assert!(matches!(actions[2], WorkerAction::ResetStatistics));

    let (again, actions) = next.on_command(WorkerCommand::StartWorking);
    assert!(again.holds_root);
    assert_eq!(actions.len(), 2);
    assert!(matches!(actions[1], WorkerAction::ResetStatistics));
}

#[test]
fn stopping_lets_go_of_the_root() {
    let (started, _) = WorkerState::new().on_command(WorkerCommand::StartWorking);
    let (stopped, actions) = started.on_command(WorkerCommand::StopWorking);
    assert!(!stopped.running && !stopped.holds_root && !stopped.wants_step());
    assert_eq!(actions.len(), 2);
    assert!(matches!(actions[0], WorkerAction::ReleaseRoot));
    assert!(matches!(actions[1], WorkerAction::ResetStatistics));

    let (_, actions) = stopped.on_command(WorkerCommand::StopWorking);
    assert_eq!(actions.len(), 1);
    assert!(matches!(actions[0], WorkerAction::ResetStatistics));
}

#[test]
fn advancing_the_root_depends_on_the_lock() {
    let mut rng = SmallRng::seed_from_u64(3);
    let game_state = GameState::new(&mut rng);
    let idle = WorkerState::new();
    let (same, actions) = idle.on_command(WorkerCommand::AdvanceRoot(game_state, None));
    assert!(!same.running);
    assert_eq!(actions.len(), 1);
    assert!(matches!(actions[0], WorkerAction::AdvanceOrCreateRoot(_, None)));

    let (verbose, actions) = idle.on_command(WorkerCommand::Verbose(true));
    assert!(verbose.verbose);
    assert_eq!(actions.len(), 1);
    assert!(matches!(actions[0], WorkerAction::PrintHeader));
    let (started, _) = verbose.on_command(WorkerCommand::StartWorking);
    let (_, actions) = started.on_command(WorkerCommand::AdvanceRoot(game_state, Some(Edge::Deterministic(Move::dummy()))));
    assert_eq!(actions.len(), 2);
    assert!(matches!(actions[0], WorkerAction::AdvanceHeldRoot(_, Some(_))));
    assert!(matches!(actions[1], WorkerAction::PrintHeader));

    let (quiet, actions) = started.on_command(WorkerCommand::Verbose(false));
    assert!(!quiet.verbose);
    assert!(actions.is_empty());
    let (_, actions) = quiet.on_command(WorkerCommand::TerminateThread);
    assert_eq!(actions.len(), 1);
    assert!(matches!(actions[0], WorkerAction::Terminate));
}

#[test]
fn batches_are_sized_by_the_measured_speed() {
    let (started, _) = WorkerState::new().on_command(WorkerCommand::StartWorking);
    // 100 iterations in 10 ms: 10 per ms, so 100 in the next 10 ms batch.
    let (next, rate, print) = started.after_step(10_000, 0);
    assert_eq!(next.completed_iterations, 100);
    assert_eq!(rate, 10);
    assert_eq!(next.iterations_per_step, 100);
    assert!(!print);
    // 200 iterations in 1 ms: 200 per ms, 2000 in the next batch.
    let (next, rate, _) = next.after_step(1_000, 0);
    assert_eq!(next.completed_iterations, 200);
    assert_eq!(rate, 200);
    assert_eq!(next.iterations_per_step, 2000);
    // Very slow: at least one iteration per batch.
    let (slow, rate, _) = started.after_step(1_000_000_000, 0);
    assert_eq!(rate, 0);
    assert_eq!(slow.iterations_per_step, 1);
    let idle = next.idle();
    assert_eq!(idle.iterations_per_step, INITIAL_ITERATIONS_PER_STEP);
    assert_eq!(idle.completed_iterations, 0);
}

#[test]
fn a_verbose_worker_prints_every_half_second() {
    let (verbose, _) = WorkerState::new().on_command(WorkerCommand::Verbose(true));
    let (started, _) = verbose.on_command(WorkerCommand::StartWorking);
    assert!(!started.after_step(10_000, 499).2);
    assert!(started.after_step(10_000, 500).2);
}

#[test]
fn a_new_game_is_consistent_and_its_moves_are_legal() {
    let mut rng = SmallRng::seed_from_u64(8);
    let mut game_state = GameState::new(&mut rng);
    assert!(game_state.is_consistent());
    let mut move_list = MoveList::new();
    game_state.get_possible_moves(&mut move_list, &mut rng);
    for i in 0..move_list.len() {
        let m = move_list.get(i);
        assert!(game_state.is_legal_move(m));
        assert!(Edge::Deterministic(m).is_applicable(&game_state));
    }
    assert!(!game_state.is_legal_move(Move::dummy()));

    let mut broken = game_state;
    broken.scores[0] = -1;
    assert!(!broken.is_consistent());
    let mut broken = game_state;
    broken.scores[1] = 5;
    assert!(!broken.is_consistent());
}

#[test]
fn a_deal_applies_only_to_empty_factories() {
    let mut rng = SmallRng::seed_from_u64(9);
    let game_state = GameState::new(&mut rng);
    let outcome = ProbabilisticOutcome {
        factories: game_state.factories,
        bag: game_state.bag,
        out_of_bag: game_state.out_of_bag,
    };
    assert!(!Edge::Probabilistic(outcome).is_applicable(&game_state));
}
