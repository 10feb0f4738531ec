//! Player symbols and board cells.

use vstd::prelude::*;

verus! {

/// One of the two players.
#[derive(Debug, Clone, Copy, PartialEq, Eq, Hash, Structural)]
pub enum Player {
    X,
    O,
}

/// The player on the other side.
pub open spec fn spec_opponent(p: Player) -> Player {
    match p {
        Player::X => Player::O,
        Player::O => Player::X,
    }
}

impl Player {
    /// Returns the opponent of this player. Total and involutive:
    /// `p.opponent().opponent() == p`.
    pub fn opponent(&self) -> (r: Player)
        ensures
            r == spec_opponent(*self),
            spec_opponent(r) == *self,
    {
        match self {
            Player::X => Player::O,
            Player::O => Player::X,
        }
    }
}

/// One square of the board: empty, or occupied by a player's symbol.
#[derive(Debug, Clone, Copy, PartialEq, Eq, Structural)]
pub enum Cell {
    Empty,
    Occupied(Player),
}

} // verus!
