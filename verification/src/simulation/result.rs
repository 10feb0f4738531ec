//! Aggregated results and statistics of a completed simulation.

use vstd::prelude::*;

verus! {

/// The outcome counters and total wall-clock time of a simulation run.
/// Immutable once produced; derived metrics are computed on demand.
#[derive(Debug, Clone, Copy)]
pub struct SimulationResult {
    games_completed: usize,
    x_wins: usize,
    o_wins: usize,
    draws: usize,
    total_duration_nanos: u64,
}

impl SimulationResult {
    /// The number of completed games.
    pub closed spec fn spec_games_completed(&self) -> usize {
        self.games_completed
    }

    /// The number of games won by X.
    pub closed spec fn spec_x_wins(&self) -> usize {
        self.x_wins
    }

    /// The number of games won by O.
    pub closed spec fn spec_o_wins(&self) -> usize {
        self.o_wins
    }

    /// The number of drawn games.
    pub closed spec fn spec_draws(&self) -> usize {
        self.draws
    }

    /// The total wall-clock duration, in nanoseconds.
    pub closed spec fn spec_total_duration(&self) -> u64 {
        self.total_duration_nanos
    }

    /// Packages the counters and the elapsed time of a finished run.
    pub(crate) fn new(
        games_completed: usize,
        x_wins: usize,
        o_wins: usize,
        draws: usize,
        total_duration_nanos: u64,
    ) -> (r: SimulationResult)
        ensures
            r.spec_games_completed() == games_completed,
            r.spec_x_wins() == x_wins,
            r.spec_o_wins() == o_wins,
            r.spec_draws() == draws,
            r.spec_total_duration() == total_duration_nanos,
    {
        SimulationResult { games_completed, x_wins, o_wins, draws, total_duration_nanos }
    }

    /// Gets the total number of completed games.
    pub fn games_completed(&self) -> (r: usize)
        ensures
            r == self.spec_games_completed(),
    {
        self.games_completed
    }

    /// Gets the number of games won by X.
    pub fn x_wins(&self) -> (r: usize)
        ensures
            r == self.spec_x_wins(),
    {
        self.x_wins
    }

    /// Gets the number of games won by O.
    pub fn o_wins(&self) -> (r: usize)
        ensures
            r == self.spec_o_wins(),
    {
        self.o_wins
    }

    /// Gets the number of drawn games.
    pub fn draws(&self) -> (r: usize)
        ensures
            r == self.spec_draws(),
    {
        self.draws
    }

    /// Gets the total duration of the simulation, in nanoseconds.
    pub fn total_duration(&self) -> (r: u64)
        ensures
            r == self.spec_total_duration(),
    {
        self.total_duration_nanos
    }

    /// Gets the average duration per game in nanoseconds, or 0 when no
    /// game was completed.
    pub fn avg_game_duration(&self) -> (r: u64)
        ensures
            self.spec_games_completed() == 0 ==> r == 0,
            self.spec_games_completed() > 0 ==> r == self.spec_total_duration() as int
                / self.spec_games_completed() as int,
    {
        if self.games_completed == 0 {
            0
        } else {
            self.total_duration_nanos / (self.games_completed as u64)
        }
    }
}

} // verus!
