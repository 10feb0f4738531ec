//! The sequential simulation runner.

use vstd::prelude::*;
use crate::board::{
    empty_grid, lemma_num_empty_update, num_empty, spec_game_result, Board,
};
use crate::engine::{is_open_cell, Engine};
use crate::game::GameResult;
use crate::player::{spec_opponent, Cell, Player};
use crate::simulation::clock::{clock_now, duration_to_nanos, elapsed_since};
use crate::simulation::config::SimulationConfig;
use crate::simulation::result::SimulationResult;

verus! {

broadcast use crate::board::lemma_board_view_len;

/// The outcome of one game driven by engine `e` from grid `s` with `p`
/// to move: turns alternate until the game ends. If the engine ever
/// failed its contract (no move, or an unplayable one, while the game
/// is in progress), the game would stop where it stands; the engine
/// contract rules that out.
pub open spec fn spec_game_outcome<E: Engine>(e: E, s: Seq<Cell>, p: Player) -> GameResult
    decreases num_empty(s),
{
    if !(spec_game_result(s) is InProgress) {
        spec_game_result(s)
    } else {
        match e.spec_choose(s, p) {
            Some(m) => {
                if is_open_cell(s, m) {
                    proof {
                        lemma_num_empty_update(s, 0, 3 * m.0 + m.1, p);
                    }
                    spec_game_outcome(
                        e,
                        s.update(3 * m.0 + m.1, Cell::Occupied(p)),
                        spec_opponent(p),
                    )
                } else {
                    spec_game_result(s)
                }
            },
            None => spec_game_result(s),
        }
    }
}

/// The counters a simulation of `n` games with engine `e` and starting
/// player `p` must report: every game is played from a fresh empty
/// board, so all `n` games have the one outcome the engine determines.
pub open spec fn spec_result_matches<E: Engine>(
    r: SimulationResult,
    e: E,
    n: usize,
    p: Player,
) -> bool {
    let o = spec_game_outcome(e, empty_grid(), p);
    &&& r.spec_games_completed() == n
    &&& r.spec_x_wins() == (if o == GameResult::Win(Player::X) {
        n as int
    } else {
        0int
    })
    &&& r.spec_o_wins() == (if o == GameResult::Win(Player::O) {
        n as int
    } else {
        0int
    })
    &&& r.spec_draws() == (if o == GameResult::Draw {
        n as int
    } else {
        0int
    })
}

/// Determinism of the batch simulator: two results of runs with the
/// same engine, game count and starting player carry identical
/// counters, as both are pinned to the same outcome function of the
/// configuration.
pub proof fn lemma_simulation_deterministic<E: Engine>(
    e: E,
    n: usize,
    p: Player,
    r1: SimulationResult,
    r2: SimulationResult,
)
    requires
        spec_result_matches(r1, e, n, p),
        spec_result_matches(r2, e, n, p),
    ensures
        r1.spec_games_completed() == r2.spec_games_completed(),
        r1.spec_x_wins() == r2.spec_x_wins(),
        r1.spec_o_wins() == r2.spec_o_wins(),
        r1.spec_draws() == r2.spec_draws(),
{
}

/// A sequential game simulator: runs the configured number of games
/// with the configured engine and aggregates the outcomes.
pub struct Simulator<E> {
    config: SimulationConfig<E>,
}

impl<E: Engine> Simulator<E> {
    /// The configuration this simulator runs.
    pub closed spec fn spec_config(&self) -> SimulationConfig<E> {
        self.config
    }

    /// Creates a new simulator with the given configuration.
    pub fn new(config: SimulationConfig<E>) -> (r: Simulator<E>)
        ensures
            r.spec_config() == config,
    {
        Simulator { config }
    }

    /// Plays one game from a fresh empty board: the engine's contract
    /// guarantees a valid move whenever the game is in progress, so the
    /// game always reaches a win or a draw.
    #[verifier::loop_isolation(false)]
    fn simulate_single_game(&self) -> (r: GameResult)
        ensures
            r == spec_game_outcome(
                self.spec_config().spec_engine(),
                empty_grid(),
                self.spec_config().spec_starting_player(),
            ),
            !(r is InProgress),
    {
        let ghost e = self.spec_config().spec_engine();
        let mut board = Board::new();
        let mut current_player = self.config.starting_player();
        let mut result = board.game_result();
        while result == GameResult::InProgress
            invariant
                result == spec_game_result(board@),
                spec_game_outcome(e, board@, current_player) == spec_game_outcome(
                    e,
                    empty_grid(),
                    self.spec_config().spec_starting_player(),
                ),
            decreases num_empty(board@),
        {
            let ghost prev = board@;
            let ghost prev_player = current_player;
            let mv = self.config.engine().choose_move(&board, current_player);
            match mv {
                Some((row, col)) => {
                    let ghost moved = board@.update(3 * row + col, Cell::Occupied(current_player));
                    let outcome = board.make_move(row, col, current_player);
                    proof {
                        assert(outcome is Ok);
                        assert(board@ == moved);
                        lemma_num_empty_update(prev, 0, 3 * row + col, prev_player);
                        assert(spec_game_outcome(e, prev, prev_player) == spec_game_outcome(
                            e,
                            board@,
                            spec_opponent(prev_player),
                        ));
                    }
                    current_player = current_player.opponent();
                },
                None => {
                    proof {
                        assert(false);
                    }
                },
            }
            result = board.game_result();
        }
        proof {
            assert(spec_game_outcome(e, board@, current_player) == result);
        }
        result
    }

    /// Runs the simulation sequentially, delivering each completed
    /// game's terminal result to `callback`, synchronously and in call
    /// order, before tallying continues; the aggregated counters are
    /// the same as for a run without a callback.
    #[verifier::loop_isolation(false)]
    pub fn run_with_callback<F: FnMut(GameResult)>(self, callback: F) -> (r: SimulationResult)
        requires
            forall|g: GameResult| #[trigger] call_requires(callback, (g,)),
        ensures
            spec_result_matches(
                r,
                self.spec_config().spec_engine(),
                self.spec_config().spec_num_games(),
                self.spec_config().spec_starting_player(),
            ),
            r.spec_x_wins() + r.spec_o_wins() + r.spec_draws()
                == self.spec_config().spec_num_games(),
    {
        let ghost cb0 = callback;
        let mut callback = callback;
        let ghost e = self.spec_config().spec_engine();
        let ghost o = spec_game_outcome(
            e,
            empty_grid(),
            self.spec_config().spec_starting_player(),
        );
        let start = clock_now();
        let n = self.config.num_games();
        let mut x_wins: usize = 0;
        let mut o_wins: usize = 0;
        let mut draws: usize = 0;
        let mut i: usize = 0;
        while i < n
            invariant
                i <= n,
                x_wins == (if o == GameResult::Win(Player::X) {
                    i as int
                } else {
                    0int
                }),
                o_wins == (if o == GameResult::Win(Player::O) {
                    i as int
                } else {
                    0int
                }),
                draws == (if o == GameResult::Draw {
                    i as int
                } else {
                    0int
                }),
                x_wins + o_wins + draws == i,
                callback == cb0,
            decreases n - i,
        {
            let result = self.simulate_single_game();
            callback(result);
            match result {
                GameResult::Win(Player::X) => {
                    x_wins = x_wins + 1;
                },
                GameResult::Win(Player::O) => {
                    o_wins = o_wins + 1;
                },
                GameResult::Draw => {
                    draws = draws + 1;
                },
                GameResult::InProgress => {
                    proof {
                        assert(false);
                    }
                },
            }
            i = i + 1;
        }
        let elapsed = elapsed_since(&start);
        let total_nanos = duration_to_nanos(&elapsed);
        SimulationResult::new(n, x_wins, o_wins, draws, total_nanos)
    }

    /// Runs all configured games sequentially and aggregates the
    /// outcome counters and the elapsed wall-clock time.
    #[verifier::loop_isolation(false)]
    pub fn run_sequential(self) -> (r: SimulationResult)
        ensures
            spec_result_matches(
                r,
                self.spec_config().spec_engine(),
                self.spec_config().spec_num_games(),
                self.spec_config().spec_starting_player(),
            ),
            r.spec_x_wins() + r.spec_o_wins() + r.spec_draws()
                == self.spec_config().spec_num_games(),
    {
        let ghost e = self.spec_config().spec_engine();
        let ghost o = spec_game_outcome(
            e,
            empty_grid(),
            self.spec_config().spec_starting_player(),
        );
        let start = clock_now();
        let n = self.config.num_games();
        let mut x_wins: usize = 0;
        let mut o_wins: usize = 0;
        let mut draws: usize = 0;
        let mut i: usize = 0;
        while i < n
            invariant
                i <= n,
                x_wins == (if o == GameResult::Win(Player::X) {
                    i as int
                } else {
                    0int
                }),
                o_wins == (if o == GameResult::Win(Player::O) {
                    i as int
                } else {
                    0int
                }),
                draws == (if o == GameResult::Draw {
                    i as int
                } else {
                    0int
                }),
                x_wins + o_wins + draws == i,
            decreases n - i,
        {
            let result = self.simulate_single_game();
            match result {
                GameResult::Win(Player::X) => {
                    x_wins = x_wins + 1;
                },
                GameResult::Win(Player::O) => {
                    o_wins = o_wins + 1;
                },
                GameResult::Draw => {
                    draws = draws + 1;
                },
                GameResult::InProgress => {
                    proof {
                        assert(false);
                    }
                },
            }
            i = i + 1;
        }
        let elapsed = elapsed_since(&start);
        let total_nanos = duration_to_nanos(&elapsed);
        SimulationResult::new(n, x_wins, o_wins, draws, total_nanos)
    }
}

} // verus!
