//! Move-selection engines: the contract they satisfy, a first-empty-cell
//! baseline, and an optimal minimax player with alpha-beta pruning.

use vstd::prelude::*;
use crate::board::{
    empty_positions_from, lemma_empty_positions_len, lemma_empty_positions_membership,
    lemma_num_empty_pos, lemma_num_empty_update, num_empty, spec_game_result, spec_valid_moves,
    Board, ValidatedBoard,
};
use crate::game::GameResult;
use crate::player::{spec_opponent, Cell, Player};

verus! {

broadcast use crate::board::lemma_board_view_len, crate::board::lemma_validated_board_view_len;

/// A candidate move lands on an empty in-range cell of a full-size grid.
pub open spec fn is_open_cell(s: Seq<Cell>, m: (usize, usize)) -> bool {
    s.len() == 9 && m.0 < 3 && m.1 < 3 && s[3 * m.0 + m.1] is Empty
}

/// The contract for move selection: an engine returns `None` exactly
/// when the game is over, and otherwise some currently empty in-range
/// position, chosen as a function of the board contents and the player.
pub trait Engine: Sized {
    /// The move this engine picks on the given grid for the given
    /// player, as a mathematical function of both.
    spec fn spec_choose(&self, s: Seq<Cell>, p: Player) -> Option<(usize, usize)>;

    /// Choose a move for the given player on the given board.
    ///
    /// Returns `None` if and only if the game is over; any returned
    /// position is empty, in range, and among the board's valid moves.
    fn choose_move(&self, board: &Board, player: Player) -> (r: Option<(usize, usize)>)
        ensures
            r == self.spec_choose(board@, player),
            r is Some <==> spec_game_result(board@) is InProgress,
            r matches Some(m) ==> is_open_cell(board@, m),
            r matches Some(m) ==> spec_valid_moves(board@).contains(m),
    ;
}

/// The first listed empty position is the row-major smallest empty
/// coordinate at position `i` or later.
pub proof fn lemma_first_empty_position(s: Seq<Cell>, i: int)
    requires
        0 <= i,
        empty_positions_from(s, i).len() > 0,
    ensures
        ({
            let m = empty_positions_from(s, i)[0];
            &&& m.0 < 3
            &&& m.1 < 3
            &&& i <= 3 * m.0 + m.1 < 9
            &&& s[3 * m.0 + m.1] is Empty
            &&& forall|k: int| i <= k < 3 * m.0 + m.1 ==> !(s[k] is Empty)
        }),
    decreases 9 - i,
{
    if i >= 9 {
        // contradicts the nonempty requirement
    } else if s[i] is Empty {
        let m = empty_positions_from(s, i)[0];
        assert(m == ((i / 3) as usize, (i % 3) as usize));
        assert(3 * m.0 + m.1 == i);
    } else {
        lemma_first_empty_position(s, i + 1);
    }
}

/// A game in progress on a full-size grid has at least one valid move.
pub proof fn lemma_in_progress_has_moves(s: Seq<Cell>)
    requires
        s.len() == 9,
        spec_game_result(s) is InProgress,
    ensures
        spec_valid_moves(s).len() > 0,
        spec_valid_moves(s) == empty_positions_from(s, 0),
{
    let j = choose|j: int| 0 <= j < 9 && s[j] is Empty;
    lemma_num_empty_pos(s, 0, j);
    lemma_empty_positions_len(s, 0);
}

/// A fast engine for high-throughput simulation: it plays the first
/// valid move in row-major scan order, the lexicographically smallest
/// empty coordinate.
#[derive(Debug, Clone, Copy)]
pub struct FastEngine;

impl Engine for FastEngine {
    /// The first valid move, while the game is in progress.
    open spec fn spec_choose(&self, s: Seq<Cell>, p: Player) -> Option<(usize, usize)> {
        if spec_game_result(s) is InProgress {
            Some(empty_positions_from(s, 0)[0])
        } else {
            None
        }
    }

    /// Besides the engine contract: the returned position is the first
    /// empty cell in row-major order, so every earlier cell is occupied.
    fn choose_move(&self, board: &Board, player: Player) -> (r: Option<(usize, usize)>)
        ensures
            r matches Some(m) ==> forall|k: int| 0 <= k < 3 * m.0 + m.1 ==> !(board@[k] is Empty),
    {
        let moves = board.valid_moves();
        if moves.len() == 0 {
            proof {
                if spec_game_result(board@) is InProgress {
                    lemma_in_progress_has_moves(board@);
                }
            }
            None
        } else {
            proof {
                lemma_first_empty_position(board@, 0);
                assert(spec_valid_moves(board@).contains(moves@[0]));
            }
            Some(moves[0])
        }
    }
}

/// The larger of two integers.
pub open spec fn max_i(a: int, b: int) -> int {
    if a >= b {
        a
    } else {
        b
    }
}

/// The smaller of two integers.
pub open spec fn min_i(a: int, b: int) -> int {
    if a <= b {
        a
    } else {
        b
    }
}

/// The score of a finished game from `maxp`'s standpoint: +10 for a win
/// of `maxp`, -10 for a loss, 0 for a draw, independent of ply depth.
pub open spec fn spec_score(r: GameResult, maxp: Player) -> int {
    match r {
        GameResult::Win(p) => if p == maxp {
            10
        } else {
            -10
        },
        GameResult::Draw => 0,
        GameResult::InProgress => 0,
    }
}

/// The exact minimax value of the position: the terminal score if the
/// game is over, else the best score over all valid moves of `cur`,
/// maximizing when `is_max` and minimizing otherwise.
pub open spec fn spec_minimax(s: Seq<Cell>, maxp: Player, cur: Player, is_max: bool) -> int
    decreases num_empty(s), 1int, 0int,
{
    if !(spec_game_result(s) is InProgress) {
        spec_score(spec_game_result(s), maxp)
    } else {
        spec_minimax_from(s, maxp, cur, is_max, empty_positions_from(s, 0), 0)
    }
}

/// The best minimax score over the candidate moves at indexes `k..`,
/// with a sentinel of -11 (maximizing) or 11 (minimizing) past the end;
/// both sentinels lie outside the score range -10..=10.
pub open spec fn spec_minimax_from(
    s: Seq<Cell>,
    maxp: Player,
    cur: Player,
    is_max: bool,
    moves: Seq<(usize, usize)>,
    k: int,
) -> int
    decreases num_empty(s), 0int, moves.len() - k,
{
    if k < 0 || k >= moves.len() {
        if is_max {
            -11
        } else {
            11
        }
    } else {
        let m = moves[k];
        let rest = spec_minimax_from(s, maxp, cur, is_max, moves, k + 1);
        if is_open_cell(s, m) {
            proof {
                lemma_num_empty_update(s, 0, 3 * m.0 + m.1, cur);
            }
            let child = spec_minimax(
                s.update(3 * m.0 + m.1, Cell::Occupied(cur)),
                maxp,
                spec_opponent(cur),
                !is_max,
            );
            if is_max {
                max_i(child, rest)
            } else {
                min_i(child, rest)
            }
        } else {
            rest
        }
    }
}

/// Minimax scores stay within the terminal score range as soon as some
/// candidate at index `k` or later is playable; otherwise the suffix
/// value is the sentinel.
pub proof fn lemma_minimax_from_bounds(
    s: Seq<Cell>,
    maxp: Player,
    cur: Player,
    is_max: bool,
    moves: Seq<(usize, usize)>,
    k: int,
)
    requires
        0 <= k,
    ensures
        (exists|j: int| k <= j < moves.len() && is_open_cell(s, #[trigger] moves[j])) ==> -10
            <= spec_minimax_from(s, maxp, cur, is_max, moves, k) <= 10,
        !(exists|j: int| k <= j < moves.len() && is_open_cell(s, #[trigger] moves[j]))
            ==> spec_minimax_from(s, maxp, cur, is_max, moves, k) == (if is_max {
            -11int
        } else {
            11int
        }),
    decreases num_empty(s), 0int, moves.len() - k,
{
    if k < moves.len() {
        let m = moves[k];
        lemma_minimax_from_bounds(s, maxp, cur, is_max, moves, k + 1);
        if is_open_cell(s, m) {
            lemma_num_empty_update(s, 0, 3 * m.0 + m.1, cur);
            lemma_minimax_bounds(
                s.update(3 * m.0 + m.1, Cell::Occupied(cur)),
                maxp,
                spec_opponent(cur),
                !is_max,
            );
        } else {
            assert forall|j: int| k <= j < moves.len() && is_open_cell(s, #[trigger] moves[j])
                implies exists|j2: int| k + 1 <= j2 < moves.len() && is_open_cell(
                s,
                #[trigger] moves[j2],
            ) by {
                assert(j != k);
            }
        }
    }
}

/// The minimax value of any position lies in the score range -10..=10.
pub proof fn lemma_minimax_bounds(s: Seq<Cell>, maxp: Player, cur: Player, is_max: bool)
    requires
        s.len() == 9,
    ensures
        -10 <= spec_minimax(s, maxp, cur, is_max) <= 10,
    decreases num_empty(s), 1int, 0int,
{
    if spec_game_result(s) is InProgress {
        lemma_in_progress_has_moves(s);
        let moves = empty_positions_from(s, 0);
        lemma_empty_positions_membership(s, 0);
        assert(moves.contains(moves[0]));
        assert(is_open_cell(s, moves[0]));
        lemma_minimax_from_bounds(s, maxp, cur, is_max, moves, 0);
    }
}

/// The minimax score, for `p`, of playing `m` on `s`: the value of the
/// resulting position with the opponent to move, minimizing.
pub open spec fn spec_move_score(s: Seq<Cell>, p: Player, m: (usize, usize)) -> int {
    spec_minimax(s.update(3 * m.0 + m.1, Cell::Occupied(p)), p, spec_opponent(p), false)
}

/// The running best move over the candidates at indexes `k..`, keeping
/// the first move whose score strictly exceeds the best seen so far
/// (row-major tie-breaking).
pub open spec fn spec_best_from(
    s: Seq<Cell>,
    p: Player,
    moves: Seq<(usize, usize)>,
    k: int,
    best: (usize, usize),
    best_score: int,
) -> (usize, usize)
    decreases moves.len() - k,
{
    if k < 0 || k >= moves.len() {
        best
    } else {
        let m = moves[k];
        let sc = if is_open_cell(s, m) {
            spec_move_score(s, p, m)
        } else {
            best_score
        };
        if sc > best_score {
            spec_best_from(s, p, moves, k + 1, m, sc)
        } else {
            spec_best_from(s, p, moves, k + 1, best, best_score)
        }
    }
}

/// The optimal move for `p`: the first valid move, in row-major order,
/// whose minimax score strictly exceeds that of every earlier one.
pub open spec fn spec_best_move(s: Seq<Cell>, p: Player) -> (usize, usize) {
    let moves = empty_positions_from(s, 0);
    spec_best_from(s, p, moves, 0, moves[0], -11)
}

/// The running best of the fold never scores below the score it starts
/// from, and at least matches every playable candidate it passes.
proof fn lemma_best_from_maximal(
    s: Seq<Cell>,
    p: Player,
    moves: Seq<(usize, usize)>,
    k: int,
    best: (usize, usize),
    best_score: int,
)
    requires
        s.len() == 9,
        0 <= k,
        best_score == spec_move_score(s, p, best) || (best_score == -11 && is_open_cell(s, best)),
    ensures
        ({
            let b = spec_best_from(s, p, moves, k, best, best_score);
            &&& spec_move_score(s, p, b) >= best_score
            &&& forall|j: int|
                k <= j < moves.len() && is_open_cell(s, #[trigger] moves[j]) ==> spec_move_score(
                    s,
                    p,
                    moves[j],
                ) <= spec_move_score(s, p, b)
        }),
    decreases moves.len() - k,
{
    if k >= moves.len() {
        if best_score != spec_move_score(s, p, best) {
            assert(is_open_cell(s, best));
            lemma_minimax_bounds(
                s.update(3 * best.0 + best.1, Cell::Occupied(p)),
                p,
                spec_opponent(p),
                false,
            );
        }
    } else {
        let m = moves[k];
        if is_open_cell(s, m) {
            lemma_minimax_bounds(
                s.update(3 * m.0 + m.1, Cell::Occupied(p)),
                p,
                spec_opponent(p),
                false,
            );
        }
        let sc = if is_open_cell(s, m) {
            spec_move_score(s, p, m)
        } else {
            best_score
        };
        if sc > best_score {
            lemma_best_from_maximal(s, p, moves, k + 1, m, sc);
        } else {
            lemma_best_from_maximal(s, p, moves, k + 1, best, best_score);
        }
    }
}

/// Optimality of the perfect engine's choice: on a game in progress,
/// the move it picks achieves the highest minimax score of all valid
/// moves.
pub proof fn lemma_best_move_maximal(s: Seq<Cell>, p: Player)
    requires
        s.len() == 9,
        spec_game_result(s) is InProgress,
    ensures
        forall|m: (usize, usize)| #[trigger] spec_valid_moves(s).contains(m) ==> spec_move_score(
            s,
            p,
            m,
        ) <= spec_move_score(s, p, spec_best_move(s, p)),
{
    lemma_in_progress_has_moves(s);
    lemma_empty_positions_membership(s, 0);
    let moves = empty_positions_from(s, 0);
    assert(moves.contains(moves[0]));
    lemma_best_from_maximal(s, p, moves, 0, moves[0], -11);
    let b = spec_best_move(s, p);
    assert forall|m: (usize, usize)| #[trigger] spec_valid_moves(s).contains(m)
        implies spec_move_score(s, p, m) <= spec_move_score(s, p, b) by {
        let j = choose|j: int| 0 <= j < moves.len() && moves[j] == m;
        assert(is_open_cell(s, moves[j]));
    }
}

/// A perfect-play engine: exhaustive minimax search with fail-soft
/// alpha-beta pruning. Playing it against itself from an empty board
/// always ends in a draw.
#[derive(Debug, Clone, Copy)]
pub struct PerfectEngine;

impl PerfectEngine {
    /// Creates a new perfect engine.
    pub fn new() -> (r: PerfectEngine) {
        PerfectEngine
    }

    /// Minimax with fail-soft alpha-beta pruning. The result is exact
    /// whenever it lies strictly inside the `(alpha, beta)` window, an
    /// upper bound on the true value when it is at most `alpha`, and a
    /// lower bound when it is at least `beta`.
    #[verifier::loop_isolation(false)]
    fn minimax(
        &self,
        board: &Board,
        maximizing_player: Player,
        current_player: Player,
        alpha: i32,
        beta: i32,
        is_maximizing: bool,
    ) -> (r: i32)
        requires
            alpha < beta,
        ensures
            ({
                let v = spec_minimax(board@, maximizing_player, current_player, is_maximizing);
                &&& -10 <= r <= 10
                &&& (r <= alpha ==> v <= r)
                &&& (r >= beta ==> v >= r)
                &&& (alpha < r < beta ==> r == v)
            }),
        decreases num_empty(board@),
    {
        match board.game_result() {
            GameResult::Win(p) => {
                if p == maximizing_player {
                    10
                } else {
                    -10
                }
            },
            GameResult::Draw => 0,
            GameResult::InProgress => {
                let ghost s = board@;
                let moves = board.valid_moves();
                proof {
                    lemma_in_progress_has_moves(s);
                    lemma_empty_positions_membership(s, 0);
                    assert forall|j: int| 0 <= j < moves@.len() implies is_open_cell(
                        s,
                        #[trigger] moves@[j],
                    ) by {
                        assert(moves@.contains(moves@[j]));
                    }
                }
                let n = moves.len();
                if is_maximizing {
                    let ghost vv = spec_minimax_from(
                        s,
                        maximizing_player,
                        current_player,
                        true,
                        moves@,
                        0,
                    );
                    proof {
                        lemma_minimax_from_bounds(
                            s,
                            maximizing_player,
                            current_player,
                            true,
                            moves@,
                            0,
                        );
                        assert(is_open_cell(s, moves@[0]));
                    }
                    let mut max_eval = i32::MIN;
                    let mut a = alpha;
                    let mut k: usize = 0;
                    let ghost mut vpre: int = -11;
                    while k < n
                        invariant
                            k <= n,
                            k == 0 ==> max_eval == i32::MIN && vpre == -11,
                            k >= 1 ==> -10 <= max_eval <= 10 && -10 <= vpre <= 10,
                            k >= 1 ==> (max_eval <= alpha ==> vpre <= max_eval),
                            k >= 1 ==> (alpha < max_eval < beta ==> vpre == max_eval),
                            k >= 1 ==> (max_eval >= beta ==> vpre >= max_eval),
                            max_i(
                                vpre,
                                spec_minimax_from(
                                    s,
                                    maximizing_player,
                                    current_player,
                                    true,
                                    moves@,
                                    k as int,
                                ),
                            ) == vv,
                            a as int == max_i(alpha as int, max_eval as int),
                            alpha <= a < beta,
                        decreases n - k,
                    {
                        let (row, col) = moves[k];
                        proof {
                            assert(moves@.contains(moves@[k as int]));
                            lemma_num_empty_update(s, 0, 3 * row + col, current_player);
                        }
                        let mut child = ValidatedBoard::from_board(*board);
                        child.make_move_unchecked(row, col, current_player);
                        let eval = self.minimax(
                            child.as_board(),
                            maximizing_player,
                            current_player.opponent(),
                            a,
                            beta,
                            false,
                        );
                        proof {
                            let cv = spec_minimax(
                                s.update(3 * row + col, Cell::Occupied(current_player)),
                                maximizing_player,
                                spec_opponent(current_player),
                                false,
                            );
                            lemma_minimax_bounds(
                                s.update(3 * row + col, Cell::Occupied(current_player)),
                                maximizing_player,
                                spec_opponent(current_player),
                                false,
                            );
                            assert(spec_minimax_from(
                                s,
                                maximizing_player,
                                current_player,
                                true,
                                moves@,
                                k as int,
                            ) == max_i(
                                cv,
                                spec_minimax_from(
                                    s,
                                    maximizing_player,
                                    current_player,
                                    true,
                                    moves@,
                                    k + 1,
                                ),
                            ));
                            vpre = max_i(vpre, cv);
                        }
                        if eval > max_eval {
                            max_eval = eval;
                        }
                        if eval > a {
                            a = eval;
                        }
                        k = k + 1;
                        if beta <= a {
                            break ;
                        }
                    }
                    proof {
                        if k == n && max_eval < beta {
                            assert(spec_minimax_from(
                                s,
                                maximizing_player,
                                current_player,
                                true,
                                moves@,
                                n as int,
                            ) == -11);
                            assert(vv == vpre);
                        }
                    }
                    max_eval
                } else {
                    let ghost vv = spec_minimax_from(
                        s,
                        maximizing_player,
                        current_player,
                        false,
                        moves@,
                        0,
                    );
                    proof {
                        lemma_minimax_from_bounds(
                            s,
                            maximizing_player,
                            current_player,
                            false,
                            moves@,
                            0,
                        );
                        assert(is_open_cell(s, moves@[0]));
                    }
                    let mut min_eval = i32::MAX;
                    let mut b = beta;
                    let mut k: usize = 0;
                    let ghost mut vpre: int = 11;
                    while k < n
                        invariant
                            k <= n,
                            k == 0 ==> min_eval == i32::MAX && vpre == 11,
                            k >= 1 ==> -10 <= min_eval <= 10 && -10 <= vpre <= 10,
                            k >= 1 ==> (min_eval >= beta ==> vpre >= min_eval),
                            k >= 1 ==> (alpha < min_eval < beta ==> vpre == min_eval),
                            k >= 1 ==> (min_eval <= alpha ==> vpre <= min_eval),
                            min_i(
                                vpre,
                                spec_minimax_from(
                                    s,
                                    maximizing_player,
                                    current_player,
                                    false,
                                    moves@,
                                    k as int,
                                ),
                            ) == vv,
                            b as int == min_i(beta as int, min_eval as int),
                            alpha < b <= beta,
                        decreases n - k,
                    {
                        let (row, col) = moves[k];
                        proof {
                            assert(moves@.contains(moves@[k as int]));
                            lemma_num_empty_update(s, 0, 3 * row + col, current_player);
                        }
                        let mut child = ValidatedBoard::from_board(*board);
                        child.make_move_unchecked(row, col, current_player);
                        let eval = self.minimax(
                            child.as_board(),
                            maximizing_player,
                            current_player.opponent(),
                            alpha,
                            b,
                            true,
                        );
                        proof {
                            let cv = spec_minimax(
                                s.update(3 * row + col, Cell::Occupied(current_player)),
                                maximizing_player,
                                spec_opponent(current_player),
                                true,
                            );
                            lemma_minimax_bounds(
                                s.update(3 * row + col, Cell::Occupied(current_player)),
                                maximizing_player,
                                spec_opponent(current_player),
                                true,
                            );
                            assert(spec_minimax_from(
                                s,
                                maximizing_player,
                                current_player,
                                false,
                                moves@,
                                k as int,
                            ) == min_i(
                                cv,
                                spec_minimax_from(
                                    s,
                                    maximizing_player,
                                    current_player,
                                    false,
                                    moves@,
                                    k + 1,
                                ),
                            ));
                            vpre = min_i(vpre, cv);
                        }
                        if eval < min_eval {
                            min_eval = eval;
                        }
                        if eval < b {
                            b = eval;
                        }
                        k = k + 1;
                        if b <= alpha {
                            break ;
                        }
                    }
                    proof {
                        if k == n && min_eval > alpha {
                            assert(spec_minimax_from(
                                s,
                                maximizing_player,
                                current_player,
                                false,
                                moves@,
                                n as int,
                            ) == 11);
                            assert(vv == vpre);
                        }
                    }
                    min_eval
                }
            },
        }
    }
}

impl Default for PerfectEngine {
    /// The default perfect engine.
    fn default() -> (r: PerfectEngine) {
        PerfectEngine::new()
    }
}

impl Engine for PerfectEngine {
    /// The optimal move, while the game is in progress.
    open spec fn spec_choose(&self, s: Seq<Cell>, p: Player) -> Option<(usize, usize)> {
        if spec_game_result(s) is InProgress {
            Some(spec_best_move(s, p))
        } else {
            None
        }
    }

    /// Besides the engine contract: the chosen move's minimax score is
    /// the highest of all valid moves, so the engine takes an immediate
    /// win when one exists and never overlooks a forced outcome.
    #[verifier::loop_isolation(false)]
    fn choose_move(&self, board: &Board, player: Player) -> (r: Option<(usize, usize)>)
        ensures
            r matches Some(m) ==> forall|m2: (usize, usize)|
                #[trigger] spec_valid_moves(board@).contains(m2) ==> spec_move_score(
                    board@,
                    player,
                    m2,
                ) <= spec_move_score(board@, player, m),
    {
        let gr = board.game_result();
        if gr != GameResult::InProgress {
            return None;
        }
        proof {
            lemma_best_move_maximal(board@, player);
        }
        let ghost s = board@;
        let moves = board.valid_moves();
        proof {
            lemma_in_progress_has_moves(s);
            lemma_empty_positions_membership(s, 0);
            assert forall|j: int| 0 <= j < moves@.len() implies is_open_cell(
                s,
                #[trigger] moves@[j],
            ) by {
                assert(moves@.contains(moves@[j]));
            }
            assert(moves@.contains(moves@[0]));
        }
        let n = moves.len();
        let mut best_score = i32::MIN;
        let mut best = moves[0];
        let mut k: usize = 0;
        while k < n
            invariant
                k <= n,
                k == 0 ==> best == moves@[0] && best_score == i32::MIN,
                k >= 1 ==> -10 <= best_score <= 10,
                moves@.contains(best),
                spec_best_from(
                    s,
                    player,
                    moves@,
                    k as int,
                    best,
                    if k == 0 {
                        -11int
                    } else {
                        best_score as int
                    },
                ) == spec_best_move(s, player),
            decreases n - k,
        {
            let (row, col) = moves[k];
            proof {
                assert(moves@.contains(moves@[k as int]));
                lemma_num_empty_update(s, 0, 3 * row + col, player);
            }
            let mut child = ValidatedBoard::from_board(*board);
            child.make_move_unchecked(row, col, player);
            let score = self.minimax(
                child.as_board(),
                player,
                player.opponent(),
                i32::MIN,
                i32::MAX,
                false,
            );
            if score > best_score {
                best_score = score;
                best = (row, col);
            }
            k = k + 1;
        }
        Some(best)
    }
}

} // verus!
