//! Concrete checks of the library's stated properties: the cell-count
//! invariant, single-winner exclusivity, optimal-play guarantees, the
//! baseline ordering, determinism, and the error taxonomy.

use zttt_rs::simulation::{SimulationConfig, Simulator};
use zttt_rs::{
    Board, Cell, Engine, FastEngine, GameResult, MoveError, PerfectEngine, Player, ValidatedBoard,
};

#[test]
fn test_occupied_plus_valid_moves_is_nine() {
    let mut board = Board::new();
    assert_eq!(board.valid_moves().len(), 9);
    board.make_move(0, 0, Player::X).unwrap();
    board.make_move(1, 1, Player::O).unwrap();
    board.make_move(2, 2, Player::X).unwrap();
    // three occupied cells, and the game is still in progress
    assert_eq!(3 + board.valid_moves().len(), 9);
}

#[test]
fn test_win_reports_single_winner() {
    let mut board = Board::new();
    board.make_move(0, 0, Player::X).unwrap();
    board.make_move(1, 0, Player::O).unwrap();
    board.make_move(0, 1, Player::X).unwrap();
    board.make_move(1, 1, Player::O).unwrap();
    board.make_move(0, 2, Player::X).unwrap();
    // X completed a row; O holds only two cells, so the result names X
    assert_eq!(board.game_result(), GameResult::Win(Player::X));
    assert_ne!(board.game_result(), GameResult::Win(Player::O));
}

#[test]
fn test_scan_order_reports_first_line() {
    // Two complete lines cannot arise through validated moves, but the
    // low-level setter can build them; the fixed scan order then
    // reports the row-0 line first.
    let mut board = ValidatedBoard::from_board(Board::new());
    board.set(0, 0, Cell::Occupied(Player::O)).unwrap();
    board.set(0, 1, Cell::Occupied(Player::O)).unwrap();
    board.set(0, 2, Cell::Occupied(Player::O)).unwrap();
    board.set(2, 0, Cell::Occupied(Player::X)).unwrap();
    board.set(2, 1, Cell::Occupied(Player::X)).unwrap();
    board.set(2, 2, Cell::Occupied(Player::X)).unwrap();
    assert_eq!(board.game_result(), GameResult::Win(Player::O));
}

#[test]
fn test_optimal_self_play_draws_starting_x() {
    let config = SimulationConfig::builder()
        .num_games(3)
        .engine(PerfectEngine::new())
        .starting_player(Player::X)
        .build();
    let result = Simulator::new(config).run_sequential();
    assert_eq!(result.draws(), 3);
    assert_eq!(result.x_wins(), 0);
    assert_eq!(result.o_wins(), 0);
}

#[test]
fn test_optimal_self_play_draws_starting_o() {
    let config = SimulationConfig::builder()
        .num_games(3)
        .engine(PerfectEngine::new())
        .starting_player(Player::O)
        .build();
    let result = Simulator::new(config).run_sequential();
    assert_eq!(result.draws(), 3);
    assert_eq!(result.x_wins(), 0);
    assert_eq!(result.o_wins(), 0);
}

#[test]
fn test_optimal_move_is_among_valid_moves() {
    let mut board = Board::new();
    board.make_move(1, 1, Player::X).unwrap();
    board.make_move(0, 0, Player::O).unwrap();
    let engine = PerfectEngine::new();
    let chosen = engine.choose_move(&board, Player::X).unwrap();
    assert!(board.valid_moves().contains(&chosen));
    assert!(board.is_valid_move(chosen.0, chosen.1));
}

#[test]
fn test_baseline_picks_first_empty() {
    let mut board = Board::new();
    board.make_move(0, 0, Player::X).unwrap();
    board.make_move(0, 1, Player::O).unwrap();
    let engine = FastEngine;
    // the smallest row-major empty coordinate is (0, 2)
    assert_eq!(engine.choose_move(&board, Player::X), Some((0, 2)));
}

#[test]
fn test_second_move_on_cell_fails_occupied() {
    let mut board = Board::new();
    board.make_move(0, 0, Player::X).unwrap();
    assert_eq!(board.make_move(0, 0, Player::O), Err(MoveError::CellOccupied));
}

#[test]
fn test_out_of_bounds_error_value() {
    let mut board = Board::new();
    assert_eq!(board.make_move(3, 0, Player::X), Err(MoveError::OutOfBounds));
    assert_eq!(board.make_move(0, 7, Player::X), Err(MoveError::OutOfBounds));
}

#[test]
fn test_game_over_error_value() {
    let mut board = Board::new();
    board.make_move(0, 0, Player::X).unwrap();
    board.make_move(1, 0, Player::O).unwrap();
    board.make_move(0, 1, Player::X).unwrap();
    board.make_move(1, 1, Player::O).unwrap();
    board.make_move(0, 2, Player::X).unwrap();
    assert_eq!(board.make_move(2, 2, Player::O), Err(MoveError::GameOver));
}

#[test]
fn test_optimal_blocks_immediate_threat() {
    let mut board = Board::new();
    board.make_move(0, 0, Player::O).unwrap();
    board.make_move(0, 1, Player::O).unwrap();
    board.make_move(1, 1, Player::X).unwrap();
    let engine = PerfectEngine::new();
    assert_eq!(engine.choose_move(&board, Player::X), Some((0, 2)));
}

#[test]
fn test_optimal_takes_immediate_win() {
    let mut board = Board::new();
    board.make_move(0, 0, Player::X).unwrap();
    board.make_move(0, 1, Player::X).unwrap();
    board.make_move(1, 0, Player::O).unwrap();
    board.make_move(1, 1, Player::O).unwrap();
    let engine = PerfectEngine::new();
    assert_eq!(engine.choose_move(&board, Player::X), Some((0, 2)));
}

#[test]
fn test_simulator_is_deterministic() {
    let build = || {
        SimulationConfig::builder()
            .num_games(100)
            .engine(FastEngine)
            .starting_player(Player::X)
            .build()
    };
    let first = Simulator::new(build()).run_sequential();
    let second = Simulator::new(build()).run_sequential();
    assert_eq!(first.games_completed(), second.games_completed());
    assert_eq!(first.x_wins(), second.x_wins());
    assert_eq!(first.o_wins(), second.o_wins());
    assert_eq!(first.draws(), second.draws());
}

#[test]
fn test_render_exact_layout() {
    let mut board = Board::new();
    board.make_move(0, 0, Player::X).unwrap();
    board.make_move(1, 1, Player::O).unwrap();
    assert_eq!(board.render(), "X . .\n. O .\n. . .");
}

#[test]
fn test_valid_moves_row_major_order() {
    let mut board = Board::new();
    board.make_move(0, 1, Player::X).unwrap();
    board.make_move(2, 0, Player::O).unwrap();
    let expected = vec![(0, 0), (0, 2), (1, 0), (1, 1), (1, 2), (2, 1), (2, 2)];
    assert_eq!(board.valid_moves(), expected);
}

#[test]
fn test_valid_moves_empty_after_win() {
    let mut board = Board::new();
    board.make_move(0, 0, Player::X).unwrap();
    board.make_move(1, 0, Player::O).unwrap();
    board.make_move(0, 1, Player::X).unwrap();
    board.make_move(1, 1, Player::O).unwrap();
    board.make_move(0, 2, Player::X).unwrap();
    assert_eq!(board.valid_moves().len(), 0);
    assert!(!board.is_valid_move(2, 2));
}

#[test]
fn test_validated_board_round_trip() {
    let mut board = Board::new();
    board.make_move(0, 0, Player::X).unwrap();
    let validated = ValidatedBoard::from_board(board.clone());
    assert_eq!(validated.get(0, 0), Some(Cell::Occupied(Player::X)));
    assert_eq!(validated.as_board().get(0, 0), Some(Cell::Occupied(Player::X)));
    let back = validated.to_board();
    assert_eq!(back, board);
}

#[test]
fn test_unchecked_accessors() {
    let mut board = ValidatedBoard::from_board(Board::new());
    board.set_unchecked(1, 1, Cell::Occupied(Player::X));
    assert_eq!(board.get_unchecked(1, 1), Cell::Occupied(Player::X));
    board.make_move_unchecked(0, 0, Player::O);
    assert_eq!(board.get_unchecked(0, 0), Cell::Occupied(Player::O));
    assert_eq!(board.game_result(), GameResult::InProgress);
    assert_eq!(board.valid_moves().len(), 7);
}

#[test]
fn test_avg_game_duration_formula() {
    let config = SimulationConfig::builder()
        .num_games(10)
        .engine(FastEngine)
        .starting_player(Player::X)
        .build();
    let result = Simulator::new(config).run_sequential();
    assert_eq!(result.avg_game_duration(), result.total_duration() / 10);
}
