//! Board representation, move validation and terminal-state detection.
//!
//! The grid is stored row-major as nine cells; position `(row, col)`
//! lives at index `3 * row + col`. All spec-level reasoning is done on
//! the board's view, a `Seq<Cell>` of length nine.

use vstd::prelude::*;
use vstd::string::StringExecFns;
use crate::engine::Engine;
use crate::game::GameResult;
use crate::player::{spec_opponent, Cell, Player};

verus! {

broadcast use vstd::array::group_array_axioms;

/// Why a move was rejected.
#[derive(Debug, Clone, Copy, PartialEq, Eq, Structural)]
pub enum MoveError {
    /// A coordinate was 3 or more.
    OutOfBounds,
    /// The target cell already holds a symbol.
    CellOccupied,
    /// The game has already ended in a win or a draw.
    GameOver,
}

/// The contents of an all-empty grid.
pub open spec fn empty_grid() -> Seq<Cell> {
    Seq::new(9, |i: int| Cell::Empty)
}

/// The cell at `(row, col)` of a row-major grid.
pub open spec fn cell_at(s: Seq<Cell>, row: int, col: int) -> Cell {
    s[row * 3 + col]
}

/// Row `row` is three cells of one player.
pub open spec fn row_won(s: Seq<Cell>, row: int) -> bool {
    cell_at(s, row, 0) matches Cell::Occupied(p) && cell_at(s, row, 1) == Cell::Occupied(p)
        && cell_at(s, row, 2) == Cell::Occupied(p)
}

/// Column `col` is three cells of one player.
pub open spec fn col_won(s: Seq<Cell>, col: int) -> bool {
    cell_at(s, 0, col) matches Cell::Occupied(p) && cell_at(s, 1, col) == Cell::Occupied(p)
        && cell_at(s, 2, col) == Cell::Occupied(p)
}

/// The main diagonal is three cells of one player.
pub open spec fn diag_won(s: Seq<Cell>) -> bool {
    cell_at(s, 0, 0) matches Cell::Occupied(p) && cell_at(s, 1, 1) == Cell::Occupied(p)
        && cell_at(s, 2, 2) == Cell::Occupied(p)
}

/// The anti-diagonal is three cells of one player.
pub open spec fn anti_diag_won(s: Seq<Cell>) -> bool {
    cell_at(s, 0, 2) matches Cell::Occupied(p) && cell_at(s, 1, 1) == Cell::Occupied(p)
        && cell_at(s, 2, 0) == Cell::Occupied(p)
}

/// Player `p` owns some complete line (row, column or diagonal).
pub open spec fn has_line(s: Seq<Cell>, p: Player) -> bool {
    ||| (row_won(s, 0) && cell_at(s, 0, 0) == Cell::Occupied(p))
    ||| (row_won(s, 1) && cell_at(s, 1, 0) == Cell::Occupied(p))
    ||| (row_won(s, 2) && cell_at(s, 2, 0) == Cell::Occupied(p))
    ||| (col_won(s, 0) && cell_at(s, 0, 0) == Cell::Occupied(p))
    ||| (col_won(s, 1) && cell_at(s, 0, 1) == Cell::Occupied(p))
    ||| (col_won(s, 2) && cell_at(s, 0, 2) == Cell::Occupied(p))
    ||| (diag_won(s) && cell_at(s, 0, 0) == Cell::Occupied(p))
    ||| (anti_diag_won(s) && cell_at(s, 0, 2) == Cell::Occupied(p))
}

/// Some cell of the grid is empty.
pub open spec fn has_empty(s: Seq<Cell>) -> bool {
    exists|i: int| 0 <= i < 9 && s[i] is Empty
}

/// The game outcome, scanning rows 0..2, then columns 0..2, then the
/// main diagonal, then the anti-diagonal, and reporting the first
/// complete line found in that order; `InProgress` if no line is
/// complete and a cell is empty, else `Draw`.
pub open spec fn spec_game_result(s: Seq<Cell>) -> GameResult {
    if row_won(s, 0) {
        GameResult::Win(cell_at(s, 0, 0)->0)
    } else if row_won(s, 1) {
        GameResult::Win(cell_at(s, 1, 0)->0)
    } else if row_won(s, 2) {
        GameResult::Win(cell_at(s, 2, 0)->0)
    } else if col_won(s, 0) {
        GameResult::Win(cell_at(s, 0, 0)->0)
    } else if col_won(s, 1) {
        GameResult::Win(cell_at(s, 0, 1)->0)
    } else if col_won(s, 2) {
        GameResult::Win(cell_at(s, 0, 2)->0)
    } else if diag_won(s) {
        GameResult::Win(cell_at(s, 0, 0)->0)
    } else if anti_diag_won(s) {
        GameResult::Win(cell_at(s, 0, 2)->0)
    } else if has_empty(s) {
        GameResult::InProgress
    } else {
        GameResult::Draw
    }
}

/// The coordinates of the empty cells at positions `i..9`, in ascending
/// (row-major) position order.
pub open spec fn empty_positions_from(s: Seq<Cell>, i: int) -> Seq<(usize, usize)>
    decreases 9 - i,
{
    if i < 0 || i >= 9 {
        Seq::empty()
    } else if s[i] is Empty {
        seq![((i / 3) as usize, (i % 3) as usize)] + empty_positions_from(s, i + 1)
    } else {
        empty_positions_from(s, i + 1)
    }
}

/// How many of the cells at positions `i..9` are empty.
pub open spec fn num_empty_from(s: Seq<Cell>, i: int) -> nat
    decreases 9 - i,
{
    if i < 0 || i >= 9 {
        0
    } else {
        (if s[i] is Empty { 1nat } else { 0 }) + num_empty_from(s, i + 1)
    }
}

/// How many of the cells at positions `i..9` are occupied.
pub open spec fn num_occupied_from(s: Seq<Cell>, i: int) -> nat
    decreases 9 - i,
{
    if i < 0 || i >= 9 {
        0
    } else {
        (if s[i] is Occupied { 1nat } else { 0 }) + num_occupied_from(s, i + 1)
    }
}

/// How many cells of the grid are empty.
pub open spec fn num_empty(s: Seq<Cell>) -> nat {
    num_empty_from(s, 0)
}

/// How many cells of the grid are occupied.
pub open spec fn num_occupied(s: Seq<Cell>) -> nat {
    num_occupied_from(s, 0)
}

/// The valid moves: the empty-cell coordinates in row-major order while
/// the game is in progress, and nothing once it has ended.
pub open spec fn spec_valid_moves(s: Seq<Cell>) -> Seq<(usize, usize)> {
    if spec_game_result(s) is InProgress {
        empty_positions_from(s, 0)
    } else {
        Seq::empty()
    }
}

/// There are as many listed empty positions as empty cells.
pub proof fn lemma_empty_positions_len(s: Seq<Cell>, i: int)
    ensures
        empty_positions_from(s, i).len() == num_empty_from(s, i),
    decreases 9 - i,
{
    if 0 <= i < 9 {
        lemma_empty_positions_len(s, i + 1);
    }
}

/// Empty and occupied cells together make up the whole grid.
pub proof fn lemma_empty_occupied_partition(s: Seq<Cell>, i: int)
    requires
        0 <= i <= 9,
    ensures
        num_empty_from(s, i) + num_occupied_from(s, i) == 9 - i,
    decreases 9 - i,
{
    if i < 9 {
        lemma_empty_occupied_partition(s, i + 1);
    }
}

/// `empty_positions_from(s, i)` holds exactly the in-range coordinates
/// of empty cells at positions `i` and later.
pub proof fn lemma_empty_positions_membership(s: Seq<Cell>, i: int)
    requires
        0 <= i,
    ensures
        forall|m: (usize, usize)|
            #[trigger] empty_positions_from(s, i).contains(m) <==> (m.0 < 3 && m.1 < 3 && i <= 3
                * m.0 + m.1 < 9 && s[3 * m.0 + m.1] is Empty),
    decreases 9 - i,
{
    if i >= 9 {
        assert(forall|m: (usize, usize)| !empty_positions_from(s, i).contains(m));
    } else {
        lemma_empty_positions_membership(s, i + 1);
        let rest = empty_positions_from(s, i + 1);
        if s[i] is Empty {
            let head = ((i / 3) as usize, (i % 3) as usize);
            let whole = seq![head] + rest;
            assert(empty_positions_from(s, i) == whole);
            assert forall|m: (usize, usize)| #[trigger] whole.contains(m) implies (m.0 < 3 && m.1
                < 3 && i <= 3 * m.0 + m.1 < 9 && s[3 * m.0 + m.1] is Empty) by {
                let k = choose|k: int| 0 <= k < whole.len() && whole[k] == m;
                if k == 0 {
                    assert(m == head);
                } else {
                    assert(rest[k - 1] == m);
                    assert(rest.contains(m));
                }
            }
            assert forall|m: (usize, usize)| (m.0 < 3 && m.1 < 3 && i <= 3 * m.0 + m.1 < 9 && s[3
                * m.0 + m.1] is Empty) implies #[trigger] whole.contains(m) by {
                if 3 * m.0 + m.1 == i {
                    assert(m == head);
                    assert(whole[0] == m);
                } else {
                    assert(rest.contains(m));
                    let k = choose|k: int| 0 <= k < rest.len() && rest[k] == m;
                    assert(whole[k + 1] == m);
                }
            }
        } else {
            assert(empty_positions_from(s, i) == rest);
            assert forall|m: (usize, usize)| (m.0 < 3 && m.1 < 3 && i <= 3 * m.0 + m.1 < 9 && s[3
                * m.0 + m.1] is Empty) implies #[trigger] rest.contains(m) by {
                assert(3 * m.0 + m.1 != i);
            }
        }
    }
}

/// Occupying the empty cell at position `j` removes exactly that cell
/// from the empty count of any range that covers it.
pub proof fn lemma_num_empty_update(s: Seq<Cell>, i: int, j: int, p: Player)
    requires
        0 <= i,
        0 <= j < 9,
        s.len() == 9,
        s[j] is Empty,
    ensures
        num_empty_from(s.update(j, Cell::Occupied(p)), i) == num_empty_from(s, i) - (if i <= j {
            1int
        } else {
            0
        }),
    decreases 9 - i,
{
    if 0 <= i < 9 {
        lemma_num_empty_update(s, i + 1, j, p);
    }
}

/// A known empty cell at position `j >= i` makes the empty count of
/// `i..9` positive.
pub proof fn lemma_num_empty_pos(s: Seq<Cell>, i: int, j: int)
    requires
        0 <= i <= j < 9,
        s[j] is Empty,
    ensures
        num_empty_from(s, i) > 0,
    decreases 9 - i,
{
    if i < j {
        lemma_num_empty_pos(s, i + 1, j);
    }
}

/// A game still in progress has no complete line for either player.
pub proof fn lemma_in_progress_no_line(s: Seq<Cell>)
    requires
        spec_game_result(s) is InProgress,
    ensures
        !has_line(s, Player::X),
        !has_line(s, Player::O),
{
}

/// A reported win comes from a complete line of the winner.
pub proof fn lemma_win_has_line(s: Seq<Cell>, p: Player)
    requires
        spec_game_result(s) == GameResult::Win(p),
    ensures
        has_line(s, p),
{
}

/// One validated move cannot complete lines for both players: a move by
/// `p` on a board still in progress leaves the opponent without a line,
/// so `Win(X)` and `Win(O)` are mutually exclusive on any board reached
/// through move application.
pub proof fn lemma_single_winner(s: Seq<Cell>, j: int, p: Player)
    requires
        s.len() == 9,
        0 <= j < 9,
        s[j] is Empty,
        spec_game_result(s) is InProgress,
    ensures
        !(has_line(s.update(j, Cell::Occupied(p)), Player::X) && has_line(
            s.update(j, Cell::Occupied(p)),
            Player::O,
        )),
{
    let t = s.update(j, Cell::Occupied(p));
    let q = spec_opponent(p);
    assert(!has_line(s, q)) by {
        lemma_in_progress_no_line(s);
    }
    assert(!has_line(t, q)) by {
        assert(forall|k: int| 0 <= k < 9 && t[k] == Cell::Occupied(q) ==> s[k] == Cell::Occupied(
            q,
        ));
    }
}

/// A range with no empty cell has an empty count of zero.
proof fn lemma_no_empty_zero_count(s: Seq<Cell>, i: int)
    requires
        0 <= i,
        forall|j: int| i <= j < 9 ==> !(s[j] is Empty),
    ensures
        num_empty_from(s, i) == 0,
    decreases 9 - i,
{
    if i < 9 {
        lemma_no_empty_zero_count(s, i + 1);
    }
}

/// As long as no line is complete -- on any board the game is still in
/// progress on, and on any drawn board -- the occupied cells and the
/// valid moves together account for all nine squares. (On a won board
/// the valid-move list is empty while cells remain, so the sum falls
/// short there.)
pub proof fn lemma_occupied_plus_valid_moves(s: Seq<Cell>)
    requires
        s.len() == 9,
        !(spec_game_result(s) is Win),
    ensures
        num_occupied(s) + spec_valid_moves(s).len() == 9,
{
    lemma_empty_occupied_partition(s, 0);
    if spec_game_result(s) is InProgress {
        lemma_empty_positions_len(s, 0);
    } else {
        assert(forall|j: int| 0 <= j < 9 ==> !(s[j] is Empty));
        lemma_no_empty_zero_count(s, 0);
    }
}

/// The symbol of one cell in a rendered board: 'X', 'O' or '.'.
pub open spec fn cell_char(c: Cell) -> char {
    match c {
        Cell::Empty => '.',
        Cell::Occupied(p) => match p {
            Player::X => 'X',
            Player::O => 'O',
        },
    }
}

/// A rendered grid: cells joined by a single space within a row, rows
/// joined by a newline.
pub open spec fn spec_render(s: Seq<Cell>) -> Seq<char> {
    seq![
        cell_char(s[0]),
        ' ',
        cell_char(s[1]),
        ' ',
        cell_char(s[2]),
        '\n',
        cell_char(s[3]),
        ' ',
        cell_char(s[4]),
        ' ',
        cell_char(s[5]),
        '\n',
        cell_char(s[6]),
        ' ',
        cell_char(s[7]),
        ' ',
        cell_char(s[8]),
    ]
}

/// The tic-tac-toe board: a 3x3 grid of cells, row-major.
#[derive(Debug, Clone, Copy, PartialEq, Eq)]
pub struct Board {
    cells: [Cell; 9],
}

impl View for Board {
    type V = Seq<Cell>;

    closed spec fn view(&self) -> Seq<Cell> {
        self.cells@
    }
}

/// A board's view always has exactly nine cells.
pub broadcast proof fn lemma_board_view_len(b: Board)
    ensures
        #[trigger] b@.len() == 9,
{
}

/// A validated board's view always has exactly nine cells.
pub broadcast proof fn lemma_validated_board_view_len(b: ValidatedBoard)
    ensures
        #[trigger] b@.len() == 9,
{
}

impl Board {
    /// Creates a new empty board.
    pub fn new() -> (r: Board)
        ensures
            r@ == empty_grid(),
    {
        let cells = vstd::array::array_fill_for_copy_types::<Cell, 9>(Cell::Empty);
        let b = Board { cells };
        proof {
            assert(b@.len() == 9);
            assert(forall|i: int| 0 <= i < 9 ==> b@[i] == Cell::Empty);
            assert(b@ =~= empty_grid());
        }
        b
    }

    /// Gets the cell at the given position, or `None` out of range.
    pub fn get(&self, row: usize, col: usize) -> (r: Option<Cell>)
        ensures
            r == if row < 3 && col < 3 {
                Some(self@[3 * row + col])
            } else {
                None::<Cell>
            },
    {
        if row < 3 && col < 3 {
            Some(self.cells[3 * row + col])
        } else {
            None
        }
    }

    /// Checks the current game result, scanning rows, columns, then the
    /// two diagonals in fixed order.
    #[verifier::loop_isolation(false)]
    pub fn game_result(&self) -> (r: GameResult)
        ensures
            r == spec_game_result(self@),
    {
        if let Cell::Occupied(p) = self.cells[0] {
            if self.cells[1] == Cell::Occupied(p) && self.cells[2] == Cell::Occupied(p) {
                return GameResult::Win(p);
            }
        }
        if let Cell::Occupied(p) = self.cells[3] {
            if self.cells[4] == Cell::Occupied(p) && self.cells[5] == Cell::Occupied(p) {
                return GameResult::Win(p);
            }
        }
        if let Cell::Occupied(p) = self.cells[6] {
            if self.cells[7] == Cell::Occupied(p) && self.cells[8] == Cell::Occupied(p) {
                return GameResult::Win(p);
            }
        }
        if let Cell::Occupied(p) = self.cells[0] {
            if self.cells[3] == Cell::Occupied(p) && self.cells[6] == Cell::Occupied(p) {
                return GameResult::Win(p);
            }
        }
        if let Cell::Occupied(p) = self.cells[1] {
            if self.cells[4] == Cell::Occupied(p) && self.cells[7] == Cell::Occupied(p) {
                return GameResult::Win(p);
            }
        }
        if let Cell::Occupied(p) = self.cells[2] {
            if self.cells[5] == Cell::Occupied(p) && self.cells[8] == Cell::Occupied(p) {
                return GameResult::Win(p);
            }
        }
        if let Cell::Occupied(p) = self.cells[0] {
            if self.cells[4] == Cell::Occupied(p) && self.cells[8] == Cell::Occupied(p) {
                return GameResult::Win(p);
            }
        }
        if let Cell::Occupied(p) = self.cells[2] {
            if self.cells[4] == Cell::Occupied(p) && self.cells[6] == Cell::Occupied(p) {
                return GameResult::Win(p);
            }
        }
        let mut i: usize = 0;
        while i < 9
            invariant
                i <= 9,
                forall|j: int| 0 <= j < i ==> !(self@[j] is Empty),
            decreases 9 - i,
        {
            if self.cells[i] == Cell::Empty {
                return GameResult::InProgress;
            }
            i = i + 1;
        }
        GameResult::Draw
    }

    /// Applies a move: rejects out-of-range coordinates, occupied cells
    /// and finished games, in that order; otherwise occupies the cell.
    pub fn make_move(&mut self, row: usize, col: usize, player: Player) -> (r: Result<
        (),
        MoveError,
    >)
        ensures
            row >= 3 || col >= 3 ==> r == Err::<(), MoveError>(MoveError::OutOfBounds) && *final(self)
                == *old(self),
            row < 3 && col < 3 && !(old(self)@[3 * row + col] is Empty) ==> r == Err::<
                (),
                MoveError,
            >(MoveError::CellOccupied) && *final(self) == *old(self),
            row < 3 && col < 3 && old(self)@[3 * row + col] is Empty && !(spec_game_result(
                old(self)@,
            ) is InProgress) ==> r == Err::<(), MoveError>(MoveError::GameOver) && *final(self) == *old(
                self,
            ),
            row < 3 && col < 3 && old(self)@[3 * row + col] is Empty && spec_game_result(
                old(self)@,
            ) is InProgress ==> r is Ok && final(self)@ == old(self)@.update(
                3 * row + col,
                Cell::Occupied(player),
            ),
    {
        if row >= 3 || col >= 3 {
            return Err(MoveError::OutOfBounds);
        }
        if self.cells[3 * row + col] != Cell::Empty {
            return Err(MoveError::CellOccupied);
        }
        if self.game_result() != GameResult::InProgress {
            return Err(MoveError::GameOver);
        }
        self.cells[3 * row + col] = Cell::Occupied(player);
        Ok(())
    }

    /// A move is valid iff it is in range, the cell is empty, and the
    /// game is still in progress.
    pub fn is_valid_move(&self, row: usize, col: usize) -> (r: bool)
        ensures
            r == (row < 3 && col < 3 && self@[3 * row + col] is Empty && spec_game_result(
                self@,
            ) is InProgress),
    {
        row < 3 && col < 3 && self.cells[3 * row + col] == Cell::Empty && self.game_result()
            == GameResult::InProgress
    }

    /// Lists the empty-cell coordinates in row-major scan order, or
    /// nothing if the game has ended.
    #[verifier::loop_isolation(false)]
    pub fn valid_moves(&self) -> (r: Vec<(usize, usize)>)
        ensures
            r@ == spec_valid_moves(self@),
    {
        let mut moves: Vec<(usize, usize)> = Vec::new();
        if self.game_result() != GameResult::InProgress {
            proof {
                assert(moves@ =~= spec_valid_moves(self@));
            }
            return moves;
        }
        let mut i: usize = 0;
        while i < 9
            invariant
                i <= 9,
                moves@ + empty_positions_from(self@, i as int) == empty_positions_from(self@, 0),
            decreases 9 - i,
        {
            if self.cells[i] == Cell::Empty {
                moves.push((i / 3, i % 3));
                proof {
                    assert(moves@ + empty_positions_from(self@, i + 1) =~= empty_positions_from(
                        self@,
                        0,
                    ));
                }
            } else {
                proof {
                    assert(moves@ + empty_positions_from(self@, i + 1) =~= empty_positions_from(
                        self@,
                        0,
                    ));
                }
            }
            i = i + 1;
        }
        proof {
            assert(moves@ =~= empty_positions_from(self@, 0));
        }
        moves
    }

    /// Convenience method: asks the given engine for a move for the
    /// given player on this board.
    pub fn choose_move<E: Engine>(&self, engine: &E, player: Player) -> (r: Option<(usize, usize)>)
        ensures
            r == engine.spec_choose(self@, player),
            r is Some <==> spec_game_result(self@) is InProgress,
            r matches Some(m) ==> m.0 < 3 && m.1 < 3 && self@[3 * m.0 + m.1] is Empty,
            r matches Some(m) ==> spec_valid_moves(self@).contains(m),
    {
        engine.choose_move(self, player)
    }

    /// Resets the board to the empty state.
    pub fn reset(&mut self)
        ensures
            final(self)@ == empty_grid(),
    {
        self.cells = [Cell::Empty; 9];
        proof {
            assert(self@ =~= empty_grid());
        }
    }

    /// Renders the board as text: 'X', 'O' or '.' per cell, cells
    /// joined by a single space within a row, rows joined by a newline.
    pub fn render(&self) -> (r: String)
        ensures
            r@ == spec_render(self@),
    {
        let mut out = String::new();
        push_cell_char(&mut out, self.cells[0]);
        push_space(&mut out);
        push_cell_char(&mut out, self.cells[1]);
        push_space(&mut out);
        push_cell_char(&mut out, self.cells[2]);
        push_newline(&mut out);
        push_cell_char(&mut out, self.cells[3]);
        push_space(&mut out);
        push_cell_char(&mut out, self.cells[4]);
        push_space(&mut out);
        push_cell_char(&mut out, self.cells[5]);
        push_newline(&mut out);
        push_cell_char(&mut out, self.cells[6]);
        push_space(&mut out);
        push_cell_char(&mut out, self.cells[7]);
        push_space(&mut out);
        push_cell_char(&mut out, self.cells[8]);
        proof {
            assert(out@ =~= spec_render(self@));
        }
        out
    }
}

/// Appends one cell's symbol to the rendering.
fn push_cell_char(out: &mut String, c: Cell)
    ensures
        final(out)@ == old(out)@ + seq![cell_char(c)],
{
    match c {
        Cell::Empty => {
            proof {
                reveal_strlit(".");
                assert("."@ =~= seq!['.']);
            }
            out.append(".");
        },
        Cell::Occupied(Player::X) => {
            proof {
                reveal_strlit("X");
                assert("X"@ =~= seq!['X']);
            }
            out.append("X");
        },
        Cell::Occupied(Player::O) => {
            proof {
                reveal_strlit("O");
                assert("O"@ =~= seq!['O']);
            }
            out.append("O");
        },
    }
}

/// Appends the in-row cell separator to the rendering.
fn push_space(out: &mut String)
    ensures
        final(out)@ == old(out)@ + seq![' '],
{
    proof {
        reveal_strlit(" ");
        assert(" "@ =~= seq![' ']);
    }
    out.append(" ");
}

/// Appends the row separator to the rendering.
fn push_newline(out: &mut String)
    ensures
        final(out)@ == old(out)@ + seq!['\n'],
{
    proof {
        reveal_strlit("\n");
        assert("\n"@ =~= seq!['\n']);
    }
    out.append("\n");
}

impl Default for Board {
    /// The default board is empty.
    fn default() -> (r: Board)
        ensures
            r@ == empty_grid(),
    {
        Board::new()
    }
}

impl Default for ValidatedBoard {
    /// The default validated board is empty.
    fn default() -> (r: ValidatedBoard)
        ensures
            r@ == empty_grid(),
    {
        ValidatedBoard::from_board(Board::new())
    }
}

/// A board wrapper for hot paths: the same validated state machine,
/// plus low-level accessors whose bounds are preconditions proved by
/// the caller instead of run-time checks.
#[derive(Debug, Clone, Copy, PartialEq, Eq)]
pub struct ValidatedBoard {
    board: Board,
}

impl View for ValidatedBoard {
    type V = Seq<Cell>;

    closed spec fn view(&self) -> Seq<Cell> {
        self.board@
    }
}

impl ValidatedBoard {
    /// Creates a validated board from a regular board.
    pub fn from_board(board: Board) -> (r: ValidatedBoard)
        ensures
            r@ == board@,
    {
        ValidatedBoard { board }
    }

    /// Converts back to a regular board.
    pub fn to_board(self) -> (r: Board)
        ensures
            r@ == self@,
    {
        self.board
    }

    /// Borrows the underlying board for read-only operations.
    pub fn as_board(&self) -> (r: &Board)
        ensures
            r@ == self@,
    {
        &self.board
    }

    /// Reads a cell without a run-time bounds check; the caller proves
    /// the coordinates in range.
    pub fn get_unchecked(&self, row: usize, col: usize) -> (r: Cell)
        requires
            row < 3,
            col < 3,
        ensures
            r == self@[3 * row + col],
    {
        self.board.cells[3 * row + col]
    }

    /// Gets the cell at the given position, or `None` out of range.
    pub fn get(&self, row: usize, col: usize) -> (r: Option<Cell>)
        ensures
            r == if row < 3 && col < 3 {
                Some(self@[3 * row + col])
            } else {
                None::<Cell>
            },
    {
        self.board.get(row, col)
    }

    /// Writes a cell without a run-time bounds check; the caller proves
    /// the coordinates in range.
    pub fn set_unchecked(&mut self, row: usize, col: usize, cell: Cell)
        requires
            row < 3,
            col < 3,
        ensures
            final(self)@ == old(self)@.update(3 * row + col, cell),
    {
        self.board.cells[3 * row + col] = cell;
    }

    /// Writes a cell with a bounds check, rejecting out-of-range
    /// coordinates.
    pub fn set(&mut self, row: usize, col: usize, cell: Cell) -> (r: Result<(), MoveError>)
        ensures
            row >= 3 || col >= 3 ==> r == Err::<(), MoveError>(MoveError::OutOfBounds) && *final(self)
                == *old(self),
            row < 3 && col < 3 ==> r is Ok && final(self)@ == old(self)@.update(3 * row + col, cell),
    {
        if row >= 3 || col >= 3 {
            return Err(MoveError::OutOfBounds);
        }
        self.board.cells[3 * row + col] = cell;
        Ok(())
    }

    /// Occupies a cell without validation; the caller proves the
    /// coordinates in range, the cell empty and the game in progress.
    pub fn make_move_unchecked(&mut self, row: usize, col: usize, player: Player)
        requires
            row < 3,
            col < 3,
            old(self)@[3 * row + col] is Empty,
            spec_game_result(old(self)@) is InProgress,
        ensures
            final(self)@ == old(self)@.update(3 * row + col, Cell::Occupied(player)),
    {
        self.board.cells[3 * row + col] = Cell::Occupied(player);
    }

    /// Checks the current game result.
    pub fn game_result(&self) -> (r: GameResult)
        ensures
            r == spec_game_result(self@),
    {
        self.board.game_result()
    }

    /// Lists the empty-cell coordinates in row-major scan order, or
    /// nothing if the game has ended.
    pub fn valid_moves(&self) -> (r: Vec<(usize, usize)>)
        ensures
            r@ == spec_valid_moves(self@),
    {
        self.board.valid_moves()
    }

    /// Renders the board as text, exactly as `Board::render` does.
    pub fn render(&self) -> (r: String)
        ensures
            r@ == spec_render(self@),
    {
        self.board.render()
    }
}

} // verus!
