//! Batch simulator behaviour.

use zttt_rs::simulation::{SimulationConfig, Simulator};
use zttt_rs::{FastEngine, GameResult, Player};

#[test]
fn test_simulator_basic() {
    let config = SimulationConfig::builder()
        .num_games(100)
        .engine(FastEngine)
        .starting_player(Player::X)
        .build();

    let simulator = Simulator::new(config);
    let result = simulator.run_sequential();

    assert_eq!(result.games_completed(), 100);
    assert_eq!(result.x_wins() + result.o_wins() + result.draws(), 100);
}

#[test]
fn test_different_starting_players() {
    let config_x = SimulationConfig::builder()
        .num_games(100)
        .engine(FastEngine)
        .starting_player(Player::X)
        .build();

    let config_o = SimulationConfig::builder()
        .num_games(100)
        .engine(FastEngine)
        .starting_player(Player::O)
        .build();

    let result_x = Simulator::new(config_x).run_sequential();
    let result_o = Simulator::new(config_o).run_sequential();

    assert_eq!(result_x.games_completed(), 100);
    assert_eq!(result_o.games_completed(), 100);
}

#[test]
fn test_callback_invocation() {
    let config = SimulationConfig::builder()
        .num_games(50)
        .engine(FastEngine)
        .starting_player(Player::X)
        .build();

    let mut callback_count = 0;
    let simulator = Simulator::new(config);

    let result = simulator.run_with_callback(|_result| {
        callback_count += 1;
    });

    assert_eq!(callback_count, 50);
    assert_eq!(result.games_completed(), 50);
}

#[test]
fn test_callback_receives_results() {
    let config = SimulationConfig::builder()
        .num_games(100)
        .engine(FastEngine)
        .starting_player(Player::X)
        .build();

    let mut x_wins = 0;
    let mut o_wins = 0;
    let mut draws = 0;

    let simulator = Simulator::new(config);
    let result = simulator.run_with_callback(|game_result| {
        match game_result {
            GameResult::Win(Player::X) => x_wins += 1,
            GameResult::Win(Player::O) => o_wins += 1,
            GameResult::Draw => draws += 1,
            GameResult::InProgress => {}
        }
    });

    // Callback counts should match result counts
    assert_eq!(x_wins, result.x_wins());
    assert_eq!(o_wins, result.o_wins());
    assert_eq!(draws, result.draws());
}
