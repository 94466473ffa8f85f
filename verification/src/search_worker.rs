//! The decisions of the background search worker: what it does on each
//! command it receives, and how it sizes its next batch of iterations from
//! the speed of the batches it has run. The thread, the locks and the clock
//! are the caller's; it performs the actions named here.
use vstd::prelude::*;
use crate::edge::Edge;
use crate::game_state::GameState;

verus! {

/// Milliseconds that one batch of iterations is meant to take; the worker
/// looks for new commands between batches, and sleeps this long when idle.
pub const ROOT_WORKER_STEP_TIME: u64 = 10;

/// Iterations in the first batch after the worker starts or pauses.
pub const INITIAL_ITERATIONS_PER_STEP: u64 = 100;

/// Milliseconds between two statistics lines when the worker is verbose.
pub const PRINT_INTERVAL_MILLISECONDS: u64 = 500;

/// What the owner of the search tree asks of its worker.
#[derive(Clone, Copy, Debug)]
pub enum WorkerCommand {
    StartWorking,
    StopWorking,
    AdvanceRoot(GameState, Option<Edge>),
    TerminateThread,
    Verbose(bool),
}

/// What the worker remembers between two turns of its loop.
#[derive(Clone, Copy, Debug)]
pub struct WorkerState {
    /// Whether it runs iterations.
    pub running: bool,
    /// Whether it prints statistics.
    pub verbose: bool,
    /// Whether it holds the lock on the root.
    pub holds_root: bool,
    /// How many iterations its next batch runs.
    pub iterations_per_step: u64,
    /// How many iterations it has run since its clock was restarted.
    pub completed_iterations: u64,
}

/// What the worker does, in order, on a command.
#[derive(Clone, Copy, Debug)]
pub enum WorkerAction {
    /// Restart the clock by which the speed is measured.
    RestartClock,
    /// Take the lock on the root, waiting for it as long as it takes.
    AcquireRoot,
    /// Let go of the lock on the root.
    ReleaseRoot,
    /// Publish empty statistics.
    ResetStatistics,
    /// Move the root it holds, if there is one, to the given position.
    AdvanceHeldRoot(GameState, Option<Edge>),
    /// Take the lock for a moment and move the root to the given position,
    /// or make a root for it where there is none.
    AdvanceOrCreateRoot(GameState, Option<Edge>),
    /// Print the header of the statistics lines.
    PrintHeader,
    /// Leave the loop.
    Terminate,
}

impl WorkerState {
    /// A worker that has just started: idle, quiet, holding nothing.
    pub fn new() -> (r: Self)
        ensures
            !r.running,
            !r.verbose,
            !r.holds_root,
            r.iterations_per_step == INITIAL_ITERATIONS_PER_STEP,
            r.completed_iterations == 0,
    {
        WorkerState {
            running: false,
            verbose: false,
            holds_root: false,
            iterations_per_step: INITIAL_ITERATIONS_PER_STEP,
            completed_iterations: 0,
        }
    }

    /// Whether the worker runs a batch of iterations in this turn (it does
    /// when it is running and holds the root, and the root exists).
    pub fn wants_step(&self) -> (r: bool)
        ensures
            r == (self.running && self.holds_root),
    {
        self.running && self.holds_root
    }

    /// The worker's state and actions after a command. Starting resets the
    /// speed measurement, takes the root and publishes empty statistics;
    /// stopping lets go of the root and publishes empty statistics; a new
    /// root position moves the held root, or the shared one, and prints the
    /// header when verbose; turning verbose on prints the header.
    pub fn on_command(self, command: WorkerCommand) -> (r: (WorkerState, Vec<WorkerAction>))
        ensures
            match command {
                WorkerCommand::StartWorking => {
                    &&& r.0 == (WorkerState {
                        running: true,
                        holds_root: true,
                        iterations_per_step: INITIAL_ITERATIONS_PER_STEP,
                        completed_iterations: 0,
                        ..self
                    })
                    &&& r.1@ == (if self.holds_root {
                        seq![WorkerAction::RestartClock, WorkerAction::ResetStatistics]
                    } else {
                        seq![
                            WorkerAction::RestartClock,
                            WorkerAction::AcquireRoot,
                            WorkerAction::ResetStatistics,
                        ]
                    })
                },
                WorkerCommand::StopWorking => {
                    &&& r.0 == (WorkerState { running: false, holds_root: false, ..self })
                    &&& r.1@ == (if self.holds_root {
                        seq![WorkerAction::ReleaseRoot, WorkerAction::ResetStatistics]
                    } else {
                        seq![WorkerAction::ResetStatistics]
                    })
                },
                WorkerCommand::AdvanceRoot(game_state, edge) => {
                    let advance = if self.holds_root {
                        WorkerAction::AdvanceHeldRoot(game_state, edge)
                    } else {
                        WorkerAction::AdvanceOrCreateRoot(game_state, edge)
                    };
                    &&& r.0 == self
                    &&& r.1@ == (if self.verbose {
                        seq![advance, WorkerAction::PrintHeader]
                    } else {
                        seq![advance]
                    })
                },
                WorkerCommand::TerminateThread => {
                    &&& r.0 == self
                    &&& r.1@ == seq![WorkerAction::Terminate]
                },
                WorkerCommand::Verbose(verbose) => {
                    &&& r.0 == (WorkerState { verbose, ..self })
                    &&& r.1@ == (if verbose { seq![WorkerAction::PrintHeader] } else { Seq::empty() })
                },
            },
    {
        let mut actions: Vec<WorkerAction> = Vec::new();
        match command {
            WorkerCommand::StartWorking => {
                actions.push(WorkerAction::RestartClock);
                if !self.holds_root {
                    actions.push(WorkerAction::AcquireRoot);
                }
                actions.push(WorkerAction::ResetStatistics);
                let next = WorkerState {
                    running: true,
                    holds_root: true,
                    iterations_per_step: INITIAL_ITERATIONS_PER_STEP,
                    completed_iterations: 0,
                    ..self
                };
                proof {
                    if self.holds_root {
                        assert(actions@ =~= seq![WorkerAction::RestartClock, WorkerAction::ResetStatistics]);
                    } else {
                        assert(actions@ =~= seq![
                            WorkerAction::RestartClock,
                            WorkerAction::AcquireRoot,
                            WorkerAction::ResetStatistics,
                        ]);
                    }
                }
                (next, actions)
            },
            WorkerCommand::StopWorking => {
                if self.holds_root {
                    actions.push(WorkerAction::ReleaseRoot);
                }
                actions.push(WorkerAction::ResetStatistics);
                proof {
                    if self.holds_root {
                        assert(actions@ =~= seq![WorkerAction::ReleaseRoot, WorkerAction::ResetStatistics]);
                    } else {
                        assert(actions@ =~= seq![WorkerAction::ResetStatistics]);
                    }
                }
                (WorkerState { running: false, holds_root: false, ..self }, actions)
            },
            WorkerCommand::AdvanceRoot(game_state, edge) => {
                if self.holds_root {
                    actions.push(WorkerAction::AdvanceHeldRoot(game_state, edge));
                } else {
                    actions.push(WorkerAction::AdvanceOrCreateRoot(game_state, edge));
                }
                if self.verbose {
                    actions.push(WorkerAction::PrintHeader);
                }
                proof {
                    let advance = if self.holds_root {
                        WorkerAction::AdvanceHeldRoot(game_state, edge)
                    } else {
                        WorkerAction::AdvanceOrCreateRoot(game_state, edge)
                    };
                    if self.verbose {
                        assert(actions@ =~= seq![advance, WorkerAction::PrintHeader]);
                    } else {
                        assert(actions@ =~= seq![advance]);
                    }
                }
                (self, actions)
            },
            WorkerCommand::TerminateThread => {
                actions.push(WorkerAction::Terminate);
                assert(actions@ =~= seq![WorkerAction::Terminate]);
                (self, actions)
            },
            WorkerCommand::Verbose(verbose) => {
                if verbose {
                    actions.push(WorkerAction::PrintHeader);
                    assert(actions@ =~= seq![WorkerAction::PrintHeader]);
                } else {
                    assert(actions@ =~= Seq::<WorkerAction>::empty());
                }
                (WorkerState { verbose, ..self }, actions)
            },
        }
    }
}

/// The speed, in whole iterations per millisecond, of `completed`
/// iterations run in `elapsed_micros` microseconds; with no time measured it
/// is as large as a `u64` holds (and nothing at all when nothing was run).
pub open spec fn measured_rate(completed: int, elapsed_micros: int) -> int {
    if elapsed_micros == 0 {
        if completed == 0 { 0 } else { u64::MAX as int }
    } else if completed * 1000 / elapsed_micros > u64::MAX {
        u64::MAX as int
    } else {
        completed * 1000 / elapsed_micros
    }
}

/// Whether the batch that follows one of `iterations_per_step` iterations,
/// after `completed` iterations in `elapsed_micros`, can be sized in a `u64`.
pub open spec fn step_fits(completed: int, iterations_per_step: int, elapsed_micros: int) -> bool {
    &&& completed + iterations_per_step <= u64::MAX
    &&& measured_rate(completed + iterations_per_step, elapsed_micros) * ROOT_WORKER_STEP_TIME <= u64::MAX
}

impl WorkerState {
    /// After a batch: the iterations count as completed, the speed since the
    /// clock was restarted is measured in whole iterations per millisecond,
    /// and the next batch is sized to take `ROOT_WORKER_STEP_TIME`
    /// milliseconds at that speed, at least one iteration. Returns the new
    /// state, the speed, and whether a statistics line is due (verbose, and
    /// `PRINT_INTERVAL_MILLISECONDS` since the last one).
    pub fn after_step(self, elapsed_micros: u64, millis_since_print: u64) -> (r: (WorkerState, u64, bool))
        requires
            step_fits(self.completed_iterations as int, self.iterations_per_step as int, elapsed_micros as int),
        ensures
            ({
                let completed = self.completed_iterations + self.iterations_per_step;
                let rate = measured_rate(completed, elapsed_micros as int);
                let next = if rate * ROOT_WORKER_STEP_TIME < 1 { 1 } else { rate * ROOT_WORKER_STEP_TIME };
                &&& r.0 == (WorkerState {
                    completed_iterations: completed as u64,
                    iterations_per_step: next as u64,
                    ..self
                })
                &&& r.1 == rate
                &&& r.2 == (self.verbose && millis_since_print >= PRINT_INTERVAL_MILLISECONDS)
            }),
    {
        let completed: u64 = self.completed_iterations + self.iterations_per_step;
        let rate: u64 = if elapsed_micros == 0 {
            if completed == 0 { 0 } else { u64::MAX }
        } else {
            let exact: u128 = (completed as u128) * 1000 / (elapsed_micros as u128);
            if exact > u64::MAX as u128 { u64::MAX } else { exact as u64 }
        };
        let scaled: u64 = rate * ROOT_WORKER_STEP_TIME;
        let next: u64 = if scaled < 1 { 1 } else { scaled };
        let print = self.verbose && millis_since_print >= PRINT_INTERVAL_MILLISECONDS;
        (WorkerState { completed_iterations: completed, iterations_per_step: next, ..self }, rate, print)
    }

    /// A turn without a batch: the speed measurement starts over (the
    /// caller restarts its clock and sleeps `ROOT_WORKER_STEP_TIME` ms).
    pub fn idle(self) -> (r: WorkerState)
        ensures
            r == (WorkerState {
                iterations_per_step: INITIAL_ITERATIONS_PER_STEP,
                completed_iterations: 0,
                ..self
            }),
    {
        WorkerState { iterations_per_step: INITIAL_ITERATIONS_PER_STEP, completed_iterations: 0, ..self }
    }
}

} // verus!
