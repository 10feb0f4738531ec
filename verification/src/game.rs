//! Game outcome type.

use vstd::prelude::*;
use crate::player::Player;

verus! {

/// The result of a game, derived on demand from the board contents.
#[derive(Debug, Clone, Copy, PartialEq, Eq, Structural)]
pub enum GameResult {
    Win(Player),
    Draw,
    InProgress,
}

} // verus!
