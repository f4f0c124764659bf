use checkers::board::{Board, BLACK, WHITE};
use checkers::game::CheckersGame;
use checkers::player::{AlphaZeroPlayer, BotPlayer, GameState, HumanPlayer, MonteCarloPlayer};

fn sq(s: u8) -> u64 {
    1u64 << s
}

#[test]
fn new_game_offers_white_moves() {
    let mut g = CheckersGame::new();
    let moves = g.current_moves();
    assert_eq!(moves.len(), 4);
    assert_eq!(g.state, GameState::InProgress);
    assert_eq!(g.turn, WHITE);
}

#[test]
fn unoffered_move_is_refused() {
    let mut g = CheckersGame::new();
    let before = g;
    assert!(!g.play_move(9, 18));
    assert_eq!(g.board, before.board);
    assert!(g.play_move(18, 27));
    assert_eq!(g.turn, BLACK);
}

#[test]
fn capture_chain_keeps_the_turn() {
    let mut g = CheckersGame::new();
    g.board = Board { white: sq(18) | sq(0), black: sq(27) | sq(45) | sq(63), kings: 0 };
    assert!(g.play_move(18, 36));
    assert_eq!(g.turn, WHITE);
    assert_eq!(g.chain, Some(36));
    let moves = g.current_moves();
    assert_eq!(moves.len(), 1);
    assert_eq!(moves[0].from, 36);
    assert_eq!(moves[0].to, vec![54]);
    assert!(!g.play_move(0, 9));
    assert!(g.play_move(36, 54));
    assert_eq!(g.chain, None);
    assert_eq!(g.turn, BLACK);
}

#[test]
fn capturing_the_last_piece_wins() {
    let mut g = CheckersGame::new();
    g.board = Board { white: sq(18), black: sq(27), kings: 0 };
    assert!(g.play_move(18, 36));
    assert_eq!(g.state, GameState::Winner(WHITE));
}

#[test]
fn side_without_moves_loses() {
    let mut g = CheckersGame::new();
    // The black man on 9 is blocked by white men on 0 and 2.
    g.board = Board { white: sq(0) | sq(2) | sq(20), black: sq(9), kings: 0 };
    g.turn = BLACK;
    let moves = g.current_moves();
    assert!(moves.is_empty());
    assert_eq!(g.state, GameState::Winner(WHITE));
}

#[test]
fn players_start_as_white() {
    assert_eq!(HumanPlayer::new().color, WHITE);
    assert_eq!(MonteCarloPlayer::new().color, WHITE);
    assert_eq!(AlphaZeroPlayer::new().color, WHITE);
    assert_eq!(BotPlayer::monte_carlo().color, WHITE);
    assert_eq!(BotPlayer::alpha_zero().color, WHITE);
}

#[test]
fn game_over_when_nothing_offered() {
    let mut g = CheckersGame::new();
    assert!(!CheckersGame::is_game_over(&g.current_moves()));
    assert!(CheckersGame::is_game_over(&Vec::new()));
}
