//! Board state-machine and engine behaviour.

use zttt_rs::{Board, Cell, Engine, FastEngine, GameResult, Player};

#[test]
fn test_new_board() {
    let board = Board::new();
    assert_eq!(board.game_result(), GameResult::InProgress);
    assert_eq!(board.valid_moves().len(), 9);
}

#[test]
fn test_make_move() {
    let mut board = Board::new();
    assert!(board.make_move(0, 0, Player::X).is_ok());
    assert_eq!(board.get(0, 0), Some(Cell::Occupied(Player::X)));
    assert_eq!(board.valid_moves().len(), 8);
}

#[test]
fn test_invalid_move() {
    let mut board = Board::new();
    board.make_move(0, 0, Player::X).unwrap();
    assert!(board.make_move(0, 0, Player::O).is_err());
}

#[test]
fn test_out_of_bounds() {
    let mut board = Board::new();
    assert!(board.make_move(3, 3, Player::X).is_err());
}

#[test]
fn test_win_row() {
    let mut board = Board::new();
    board.make_move(0, 0, Player::X).unwrap();
    board.make_move(1, 0, Player::O).unwrap();
    board.make_move(0, 1, Player::X).unwrap();
    board.make_move(1, 1, Player::O).unwrap();
    board.make_move(0, 2, Player::X).unwrap();
    assert_eq!(board.game_result(), GameResult::Win(Player::X));
}

#[test]
fn test_win_column() {
    let mut board = Board::new();
    board.make_move(0, 0, Player::X).unwrap();
    board.make_move(0, 1, Player::O).unwrap();
    board.make_move(1, 0, Player::X).unwrap();
    board.make_move(1, 1, Player::O).unwrap();
    board.make_move(2, 0, Player::X).unwrap();
    assert_eq!(board.game_result(), GameResult::Win(Player::X));
}

#[test]
fn test_win_diagonal() {
    let mut board = Board::new();
    board.make_move(0, 0, Player::X).unwrap();
    board.make_move(0, 1, Player::O).unwrap();
    board.make_move(1, 1, Player::X).unwrap();
    board.make_move(0, 2, Player::O).unwrap();
    board.make_move(2, 2, Player::X).unwrap();
    assert_eq!(board.game_result(), GameResult::Win(Player::X));
}

#[test]
fn test_win_anti_diagonal() {
    let mut board = Board::new();
    board.make_move(0, 2, Player::X).unwrap();
    board.make_move(0, 1, Player::O).unwrap();
    board.make_move(1, 1, Player::X).unwrap();
    board.make_move(0, 0, Player::O).unwrap();
    board.make_move(2, 0, Player::X).unwrap();
    assert_eq!(board.game_result(), GameResult::Win(Player::X));
}

#[test]
fn test_draw() {
    let mut board = Board::new();
    // X O X
    // X O O
    // O X X
    board.make_move(0, 0, Player::X).unwrap();
    board.make_move(0, 1, Player::O).unwrap();
    board.make_move(0, 2, Player::X).unwrap();
    board.make_move(1, 0, Player::X).unwrap();
    board.make_move(1, 1, Player::O).unwrap();
    board.make_move(1, 2, Player::O).unwrap();
    board.make_move(2, 0, Player::O).unwrap();
    board.make_move(2, 1, Player::X).unwrap();
    board.make_move(2, 2, Player::X).unwrap();
    assert_eq!(board.game_result(), GameResult::Draw);
}

#[test]
fn test_engine_returns_valid_move() {
    let mut board = Board::new();
    board.make_move(0, 0, Player::O).unwrap();
    board.make_move(1, 1, Player::X).unwrap();

    let engine = FastEngine;
    let chosen = engine.choose_move(&board, Player::X);
    assert!(chosen.is_some());
    let (row, col) = chosen.unwrap();
    assert!(board.is_valid_move(row, col));
}

#[test]
fn test_engine_returns_none_when_game_over() {
    let mut board = Board::new();
    board.make_move(0, 0, Player::X).unwrap();
    board.make_move(1, 0, Player::O).unwrap();
    board.make_move(0, 1, Player::X).unwrap();
    board.make_move(1, 1, Player::O).unwrap();
    board.make_move(0, 2, Player::X).unwrap();

    assert_eq!(board.game_result(), GameResult::Win(Player::X));

    let engine = FastEngine;
    let chosen = engine.choose_move(&board, Player::O);
    assert!(chosen.is_none());
}

#[test]
fn test_board_choose_move_convenience() {
    let mut board = Board::new();
    board.make_move(0, 0, Player::X).unwrap();

    let engine = FastEngine;
    let chosen = board.choose_move(&engine, Player::O);
    assert!(chosen.is_some());
}

#[test]
fn test_player_opponent() {
    assert_eq!(Player::X.opponent(), Player::O);
    assert_eq!(Player::O.opponent(), Player::X);
}

#[test]
fn test_reset_board() {
    let mut board = Board::new();
    board.make_move(0, 0, Player::X).unwrap();
    board.make_move(1, 1, Player::O).unwrap();
    board.reset();
    assert_eq!(board.game_result(), GameResult::InProgress);
    assert_eq!(board.valid_moves().len(), 9);
}

#[test]
fn test_display() {
    let mut board = Board::new();
    board.make_move(0, 0, Player::X).unwrap();
    board.make_move(1, 1, Player::O).unwrap();
    let display = board.render();
    assert!(display.contains("X"));
    assert!(display.contains("O"));
    assert!(display.contains("."));
}

#[test]
fn test_cannot_move_after_game_over() {
    let mut board = Board::new();
    board.make_move(0, 0, Player::X).unwrap();
    board.make_move(1, 0, Player::O).unwrap();
    board.make_move(0, 1, Player::X).unwrap();
    board.make_move(1, 1, Player::O).unwrap();
    board.make_move(0, 2, Player::X).unwrap();

    assert_eq!(board.game_result(), GameResult::Win(Player::X));
    assert!(board.make_move(2, 2, Player::O).is_err());
}
