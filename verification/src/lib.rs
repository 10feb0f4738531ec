//! A 3x3 tic-tac-toe core: a validated board state machine, pluggable
//! move-selection engines (a first-empty-cell baseline and an optimal
//! minimax player with alpha-beta pruning), and a sequential batch
//! simulator with aggregated outcome statistics.

pub mod board;
pub mod engine;
pub mod game;
pub mod player;
pub mod simulation;

pub use board::Board;
pub use board::MoveError;
pub use board::ValidatedBoard;
pub use engine::Engine;
pub use engine::FastEngine;
pub use engine::PerfectEngine;
pub use game::GameResult;
pub use player::Cell;
pub use player::Player;
