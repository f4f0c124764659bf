use checkers::board::{Board, BLACK, WHITE};
use checkers::eval::Evaluator;
use checkers::player::{BotPlayer, GameState};
use checkers::search::{best_of, Depth, MinimaxPlayer, SearchError, WIN_BASE};

fn sq(s: u8) -> u64 {
    1u64 << s
}

#[test]
fn invalid_evaluator_is_refused() {
    assert!(matches!(MinimaxPlayer::new(Depth::Static(1), 3), Err(SearchError::InvalidEvaluatorSelector)));
    assert!(matches!(MinimaxPlayer::new(Depth::Static(1), 0), Err(SearchError::InvalidEvaluatorSelector)));
    assert!(MinimaxPlayer::new(Depth::Static(1), 1).is_ok());
    assert!(BotPlayer::alpha_beta(Depth::Dynamic, 2).is_ok());
    assert!(BotPlayer::minimax(Depth::Dynamic, 7).is_err());
}

#[test]
fn evaluator_ids() {
    assert_eq!(Evaluator::from_id(1), Some(Evaluator::Material));
    assert_eq!(Evaluator::from_id(2), Some(Evaluator::Positional));
    assert_eq!(Evaluator::from_id(9), None);
}

#[test]
fn starting_position_depth_one_material() {
    let b = Board::new();
    let moves = b.possible_moves(WHITE);
    let mut player = MinimaxPlayer::new(Depth::Static(1), 1).unwrap();
    // Every reply leaves the material even.
    for m in &moves {
        for t in &m.to {
            let mut q = b;
            q.move_piece(m.from, *t);
            assert_eq!(player.score_position(&q, 0), 0);
        }
    }
    let chosen = player.get_move(&b, &moves);
    assert_eq!(chosen, Some((16, 25)));
}

#[test]
fn get_move_is_deterministic() {
    let b = Board::new();
    let moves = b.possible_moves(WHITE);
    let mut player = MinimaxPlayer::new(Depth::Static(3), 2).unwrap();
    let first = player.get_move(&b, &moves);
    let other = Board { white: sq(18), black: sq(27) | sq(45), kings: 0 };
    let other_moves = other.possible_moves(WHITE);
    player.get_move(&other, &other_moves);
    let second = player.get_move(&b, &moves);
    assert_eq!(first, second);
    assert!(first.is_some());
}

#[test]
fn no_moves_gives_no_choice() {
    let b = Board::new();
    let mut player = MinimaxPlayer::new(Depth::Static(2), 1).unwrap();
    assert_eq!(player.get_move(&b, &Vec::new()), None);
}

#[test]
fn lost_position_scores_below_material() {
    let b = Board { white: 0, black: sq(41), kings: 0 };
    assert!(b.possible_moves(WHITE).is_empty());
    let mut player = MinimaxPlayer::new(Depth::Static(1), 1).unwrap();
    let score = player.score_position(&b, 1);
    assert_eq!(score, -WIN_BASE);
    assert!(score < -128);
    let score = player.score_position(&b, 3);
    assert_eq!(score, -3 * WIN_BASE);
}

#[test]
fn search_takes_the_free_piece() {
    // White can jump 18 -> 36; every other move loses nothing but gains nothing either.
    let b = Board { white: sq(18) | sq(0), black: sq(27) | sq(63), kings: 0 };
    let moves = b.possible_moves(WHITE);
    let mut player = MinimaxPlayer::new(Depth::Static(2), 1).unwrap();
    assert_eq!(player.get_move(&b, &moves), Some((18, 36)));
}

#[test]
fn black_player_scores_for_black() {
    let b = Board { white: sq(18), black: sq(27) | sq(45), kings: 0 };
    let mut player = MinimaxPlayer::new(Depth::Static(1), 1).unwrap();
    player.init(BLACK);
    assert_eq!(player.get_color(), BLACK);
    assert_eq!(player.score_position(&b, 0), 1);
    assert_eq!(player.swap_color(), WHITE);
    assert_eq!(player.score_position(&b, 0), -1);
}

#[test]
fn dynamic_depth_by_piece_count() {
    let player = MinimaxPlayer::new(Depth::Dynamic, 1).unwrap();
    assert_eq!(player.search_depth(&Board::new()), 6);
    let few = Board { white: sq(0) | sq(2), black: sq(63), kings: 0 };
    assert_eq!(player.search_depth(&few), 11);
    let fixed = MinimaxPlayer::new(Depth::Static(4), 1).unwrap();
    assert_eq!(fixed.search_depth(&few), 4);
}

#[test]
fn game_state_by_counts() {
    assert_eq!(BotPlayer::get_game_state(&Board::new()), GameState::InProgress);
    let b = Board { white: 0, black: sq(41), kings: 0 };
    assert_eq!(BotPlayer::get_game_state(&b), GameState::Winner(BLACK));
    let b = Board { white: sq(0), black: 0, kings: 0 };
    assert_eq!(BotPlayer::get_game_state(&b), GameState::Winner(WHITE));
}

#[test]
fn clearing_the_table_keeps_results() {
    let b = Board::new();
    let moves = b.possible_moves(WHITE);
    let mut player = MinimaxPlayer::new(Depth::Static(2), 2).unwrap();
    let first = player.get_move(&b, &moves);
    player.clear_transposition_table();
    assert_eq!(player.get_move(&b, &moves), first);
}

#[test]
fn analyse_lists_every_move_with_its_value() {
    let b = Board::new();
    let mut player = MinimaxPlayer::new(Depth::Static(1), 1).unwrap();
    let values = player.analyse(&b);
    let moves: Vec<(u8, u8)> = values.iter().map(|(m, _)| *m).collect();
    assert_eq!(moves, vec![(16, 25), (18, 25), (18, 27), (20, 27), (20, 29), (22, 29), (22, 31)]);
    assert!(values.iter().all(|(_, v)| *v == 0));
    let capture = Board { white: sq(18), black: sq(27) | sq(63), kings: 0 };
    let values = player.analyse(&capture);
    assert_eq!(values, vec![((18, 36), 0)]);
}

#[test]
fn best_of_keeps_the_first_highest() {
    let values = vec![((1u8, 2u8), 3i64), ((4, 5), 7), ((6, 7), 7), ((8, 9), -1)];
    assert_eq!(best_of(&values), Some(((4, 5), 7)));
    assert_eq!(best_of(&Vec::new()), None);
}
