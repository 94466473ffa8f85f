//! How much time a player has: the time controls of a match, and the search
//! players' account of the time left.
use vstd::prelude::*;
use crate::text::{dec, push_decimal};
use crate::tile_color::push_char;

verus! {

/// The time control of a match.
#[derive(Debug, Clone, Copy, PartialEq, Eq, Structural)]
pub enum TimeControl {
    /// A total time for the whole game.
    SuddenDeath { total_milliseconds: u64 },
    /// A total time and an increment for each move.
    Incremental { total_milliseconds: u64, increment_milliseconds: u64 },
    /// The same time for every move.
    ConstantTimePerMove { milliseconds_per_move: u64 },
    /// The same number of search iterations for every move.
    ConstantIterationsPerMove { iterations_per_move: u64 },
    /// A base time, an increment for each move, and a cap on the time for one move.
    FischerTimingWithMaxTime { base_time_milliseconds: u64, increment_milliseconds: u64, max_time_milliseconds: u64 },
}

/// The time a player has for the whole game under a time control: the total
/// or base time; for the per-move controls, the time of one move (none where
/// moves are counted in iterations).
pub open spec fn total_time(t: TimeControl) -> u64 {
    match t {
        TimeControl::SuddenDeath { total_milliseconds } => total_milliseconds,
        TimeControl::Incremental { total_milliseconds, .. } => total_milliseconds,
        TimeControl::ConstantTimePerMove { milliseconds_per_move } => milliseconds_per_move,
        TimeControl::ConstantIterationsPerMove { .. } => 0,
        TimeControl::FischerTimingWithMaxTime { base_time_milliseconds, .. } => base_time_milliseconds,
    }
}

/// The text of a time control.
pub open spec fn time_control_text(t: TimeControl) -> Seq<char> {
    match t {
        TimeControl::SuddenDeath { total_milliseconds } => "Sudden Death: "@ + dec(total_milliseconds as nat) + "ms"@,
        TimeControl::Incremental { total_milliseconds, increment_milliseconds } => "Incremental: "@ + dec(
            total_milliseconds as nat,
        ) + "ms total, "@ + dec(increment_milliseconds as nat) + "ms increment"@,
        TimeControl::ConstantTimePerMove { milliseconds_per_move } => "Constant Time Per Move: "@ + dec(
            milliseconds_per_move as nat,
        ) + "ms"@,
        TimeControl::ConstantIterationsPerMove { iterations_per_move } => "Constant Iterations Per Move: "@ + dec(
            iterations_per_move as nat,
        ),
        TimeControl::FischerTimingWithMaxTime { base_time_milliseconds, increment_milliseconds, max_time_milliseconds } =>
            "Fischer Timing: "@ + dec(base_time_milliseconds as nat) + "ms base, "@ + dec(increment_milliseconds as nat)
            + "ms increment, "@ + dec(max_time_milliseconds as nat) + "ms max"@,
    }
}

impl TimeControl {
    /// A total time for the whole game.
    pub fn sudden_death(total_milliseconds: u64) -> (r: Self)
        ensures
            r == (TimeControl::SuddenDeath { total_milliseconds }),
    {
        TimeControl::SuddenDeath { total_milliseconds }
    }

    /// A total time and an increment for each move.
    pub fn incremental(total_milliseconds: u64, increment_milliseconds: u64) -> (r: Self)
        ensures
            r == (TimeControl::Incremental { total_milliseconds, increment_milliseconds }),
    {
        TimeControl::Incremental { total_milliseconds, increment_milliseconds }
    }

    /// The same time for every move.
    pub fn constant_time_per_move(milliseconds_per_move: u64) -> (r: Self)
        ensures
            r == (TimeControl::ConstantTimePerMove { milliseconds_per_move }),
    {
        TimeControl::ConstantTimePerMove { milliseconds_per_move }
    }

    /// A base time, an increment for each move and a cap on one move's time.
    pub fn fischer_timing_with_max_time(
        base_time_milliseconds: u64,
        increment_milliseconds: u64,
        max_time_milliseconds: u64,
    ) -> (r: Self)
        ensures
            r == (TimeControl::FischerTimingWithMaxTime {
                base_time_milliseconds,
                increment_milliseconds,
                max_time_milliseconds,
            }),
    {
        TimeControl::FischerTimingWithMaxTime { base_time_milliseconds, increment_milliseconds, max_time_milliseconds }
    }

    /// The time a player has for the whole game.
    pub fn get_total_time(&self) -> (r: u64)
        ensures
            r == total_time(*self),
    {
        match *self {
            TimeControl::SuddenDeath { total_milliseconds } => total_milliseconds,
            TimeControl::Incremental { total_milliseconds, .. } => total_milliseconds,
            TimeControl::ConstantTimePerMove { milliseconds_per_move } => milliseconds_per_move,
            TimeControl::ConstantIterationsPerMove { .. } => 0,
            TimeControl::FischerTimingWithMaxTime { base_time_milliseconds, .. } => base_time_milliseconds,
        }
    }

    /// The time control as text, for instance `Sudden Death: 60000ms`.
    pub fn to_display_string(&self) -> (r: String)
        ensures
            r@ == time_control_text(*self),
    {
        match *self {
            TimeControl::SuddenDeath { total_milliseconds } => {
                let mut s = String::from_str("Sudden Death: ");
                push_decimal(&mut s, total_milliseconds as u128);
                s.append("ms");
                s
            },
            TimeControl::Incremental { total_milliseconds, increment_milliseconds } => {
                let mut s = String::from_str("Incremental: ");
                push_decimal(&mut s, total_milliseconds as u128);
                s.append("ms total, ");
                push_decimal(&mut s, increment_milliseconds as u128);
                s.append("ms increment");
                s
            },
            TimeControl::ConstantTimePerMove { milliseconds_per_move } => {
                let mut s = String::from_str("Constant Time Per Move: ");
                push_decimal(&mut s, milliseconds_per_move as u128);
                s.append("ms");
                s
            },
            TimeControl::ConstantIterationsPerMove { iterations_per_move } => {
                let mut s = String::from_str("Constant Iterations Per Move: ");
                push_decimal(&mut s, iterations_per_move as u128);
                s
            },
            TimeControl::FischerTimingWithMaxTime {
                base_time_milliseconds,
                increment_milliseconds,
                max_time_milliseconds,
            } => {
                let mut s = String::from_str("Fischer Timing: ");
                push_decimal(&mut s, base_time_milliseconds as u128);
                s.append("ms base, ");
                push_decimal(&mut s, increment_milliseconds as u128);
                s.append("ms increment, ");
                push_decimal(&mut s, max_time_milliseconds as u128);
                s.append("ms max");
                s
            },
        }
    }
}

/// What a search was allotted and what is left of the game's time.
#[derive(Debug, Clone, Copy)]
pub struct RemainingTimeInfo {
    pub current_search_allocated_time: Option<i64>,
    pub game_remaining_time: Option<i64>,
}

/// Whether a search goes on (and for how many milliseconds before the next
/// check) or stops.
#[derive(Debug, Clone, Copy)]
pub enum TimeControlResult {
    ContinueFor(u64, RemainingTimeInfo),
    Stop,
}

/// A search player's account of its time.
pub struct MctsTimeControl {
    time_control: TimeControl,
    remaining_time: i64,
}

impl MctsTimeControl {
    /// The time control.
    pub closed spec fn control(&self) -> TimeControl {
        self.time_control
    }

    /// The time left, in milliseconds.
    pub closed spec fn remaining(&self) -> int {
        self.remaining_time as int
    }

    /// An account that starts with the whole time of the control.
    pub fn new(time_control: TimeControl) -> (r: Self)
        ensures
            r.control() == time_control,
            r.remaining() == (total_time(time_control) as i64) as int,
    {
        let mut ret = MctsTimeControl { time_control, remaining_time: 0 };
        ret.reset();
        ret
    }

    /// Starts again with the whole time of the control.
    pub fn reset(&mut self)
        ensures
            final(self).control() == old(self).control(),
            final(self).remaining() == (total_time(old(self).control()) as i64) as int,
    {
        self.remaining_time = self.time_control.get_total_time() as i64;
    }

    /// Sets the time left.
    pub fn set_remaining_time(&mut self, remaining_time: i64)
        ensures
            final(self).control() == old(self).control(),
            final(self).remaining() == remaining_time,
    {
        self.remaining_time = remaining_time;
    }

    /// The time control.
    pub fn time_control(&self) -> (r: TimeControl)
        ensures
            r == self.control(),
    {
        self.time_control
    }

    /// The time left, in milliseconds.
    pub fn remaining_time(&self) -> (r: i64)
        ensures
            r == self.remaining(),
    {
        self.remaining_time
    }
}

/// The time left after a search of `elapsed_time` milliseconds stops: the
/// time spent is taken off, and under Fischer timing the increment is added
/// and the total capped at the maximum, both read as an `i64` (a value of
/// 2^63 or more wraps around to a negative one).
pub open spec fn time_after_search(t: TimeControl, remaining: int, elapsed_time: int) -> int {
    match t {
        TimeControl::FischerTimingWithMaxTime { increment_milliseconds, max_time_milliseconds, .. } => {
            let r = remaining - elapsed_time + (increment_milliseconds as i64);
            let cap = max_time_milliseconds as i64;
            if r < cap {
                r
            } else {
                cap as int
            }
        },
        _ => remaining - elapsed_time,
    }
}

/// Whether a search of `elapsed_time` milliseconds of its `allocated_time`
/// stops: less than 10 ms of the allocation are left, or `stop_early` and
/// more than 1.5 s have passed.
pub open spec fn search_stops(allocated_time: int, elapsed_time: int, stop_early: bool) -> bool {
    let allocated = if stop_early && elapsed_time > 1500 { 0 } else { allocated_time };
    let effective = if allocated - elapsed_time < 0 { 0 } else { allocated - elapsed_time };
    effective < 10
}

impl MctsTimeControl {
    /// Decides, for a search that has run `elapsed_time` milliseconds of the
    /// `allocated_time` it was given, whether it stops: it does when less than
    /// 10 ms of the allocation are left, or when `stop_early` (the search is
    /// sure of its move) and more than 1.5 s have passed; then the time left
    /// is updated. Otherwise it goes on, and is looked at again after a fifth
    /// of what is left of the allocation, at most a second.
    pub fn conclude(
        &mut self,
        allocated_time: i64,
        elapsed_time: i64,
        stop_early: bool,
        info: RemainingTimeInfo,
    ) -> (r: TimeControlResult)
        requires
            0 <= elapsed_time,
            allocated_time - elapsed_time >= i64::MIN,
            search_stops(allocated_time as int, elapsed_time as int, stop_early) ==> old(self).remaining()
                - elapsed_time >= i64::MIN,
            search_stops(allocated_time as int, elapsed_time as int, stop_early) ==> (old(self).control() matches
                TimeControl::FischerTimingWithMaxTime { increment_milliseconds, .. } ==> i64::MIN <= old(
                self,
            ).remaining() - elapsed_time + (increment_milliseconds as i64) <= i64::MAX),
        ensures
            final(self).control() == old(self).control(),
            ({
                let allocated = if stop_early && elapsed_time > 1500 { 0 } else { allocated_time as int };
                let effective = if allocated - elapsed_time < 0 { 0 } else { allocated - elapsed_time };
                if effective < 10 {
                    &&& r matches TimeControlResult::Stop
                    &&& final(self).remaining() == time_after_search(old(self).control(), old(self).remaining(), elapsed_time as int)
                } else {
                    &&& r == TimeControlResult::ContinueFor(
                        if effective / 5 < 1000 { (effective / 5) as u64 } else { 1000u64 },
                        info,
                    )
                    &&& final(self).remaining() == old(self).remaining()
                }
            }),
    {
        let allocated: i64 = if stop_early && elapsed_time > 1500 { 0 } else { allocated_time };
        let effective: i64 = if allocated - elapsed_time < 0 { 0 } else { allocated - elapsed_time };
        if effective < 10 {
            let mut remaining: i64 = self.remaining_time - elapsed_time;
            match self.time_control {
                TimeControl::FischerTimingWithMaxTime { increment_milliseconds, max_time_milliseconds, .. } => {
                    remaining = remaining + increment_milliseconds as i64;
                    let cap: i64 = max_time_milliseconds as i64;
                    if cap < remaining {
                        remaining = cap;
                    }
                },
                _ => {},
            }
            self.remaining_time = remaining;
            TimeControlResult::Stop
        } else {
            let wait: i64 = effective / 5;
            let wait: u64 = if wait < 1000 { wait as u64 } else { 1000 };
            TimeControlResult::ContinueFor(wait, info)
        }
    }
}

} // verus!
