use vstd::prelude::*;

use crate::board::{Board, PieceColor, BLACK, WHITE};
use crate::search::{AlphaBetaPlayer, Depth, MinimaxPlayer, SearchError};

verus! {

/// Where a game stands.
#[derive(Clone, Copy, Debug, PartialEq, Eq, Structural)]
pub enum GameState {
    InProgress,
    Winner(PieceColor),
}

/// The state of a board by its piece counts: a side without pieces has lost.
pub open spec fn state_by_count(b: Board) -> GameState {
    if b.pieces_of(WHITE) == 0 {
        GameState::Winner(BLACK)
    } else if b.pieces_of(BLACK) == 0 {
        GameState::Winner(WHITE)
    } else {
        GameState::InProgress
    }
}

/// A player whose moves come from outside the library.
#[derive(Clone, Copy, Debug)]
pub struct HumanPlayer {
    pub color: PieceColor,
}

impl HumanPlayer {
    pub fn new() -> (r: HumanPlayer)
        ensures
            r.color == WHITE,
    {
        HumanPlayer { color: WHITE }
    }
}

/// A Monte Carlo tree search player; it has no strategy of its own yet.
#[derive(Clone, Copy, Debug)]
pub struct MonteCarloPlayer {
    pub color: PieceColor,
}

impl MonteCarloPlayer {
    pub fn new() -> (r: MonteCarloPlayer)
        ensures
            r.color == WHITE,
    {
        MonteCarloPlayer { color: WHITE }
    }
}

/// A player driven by a trained model; it has no strategy of its own yet.
#[derive(Clone, Copy, Debug)]
pub struct AlphaZeroPlayer {
    pub color: PieceColor,
}

impl AlphaZeroPlayer {
    pub fn new() -> (r: AlphaZeroPlayer)
        ensures
            r.color == WHITE,
    {
        AlphaZeroPlayer { color: WHITE }
    }
}

/// Makes the automated players.
pub struct BotPlayer;

impl BotPlayer {
    /// A searching player, or the error for an evaluator number other than 1 and 2.
    pub fn minimax(depth: Depth, eval_version: u8) -> (r: Result<MinimaxPlayer, SearchError>)
        ensures
            eval_version == 1 || eval_version == 2 <==> r.is_ok(),
            r matches Ok(p) ==> p.depth_spec() == depth && p.color_spec() == WHITE,
    {
        MinimaxPlayer::new(depth, eval_version)
    }

    /// A searching player, or the error for an evaluator number other than 1 and 2.
    pub fn alpha_beta(depth: Depth, eval_version: u8) -> (r: Result<AlphaBetaPlayer, SearchError>)
        ensures
            eval_version == 1 || eval_version == 2 <==> r.is_ok(),
            r matches Ok(p) ==> p.depth_spec() == depth && p.color_spec() == WHITE,
    {
        MinimaxPlayer::new(depth, eval_version)
    }

    pub fn monte_carlo() -> (r: MonteCarloPlayer)
        ensures
            r.color == WHITE,
    {
        MonteCarloPlayer::new()
    }

    pub fn alpha_zero() -> (r: AlphaZeroPlayer)
        ensures
            r.color == WHITE,
    {
        AlphaZeroPlayer::new()
    }

    /// The state of `board` by its piece counts: black has won when white has no pieces,
    /// white has won when black has none, and the game goes on otherwise.
    pub fn get_game_state(board: &Board) -> (r: GameState)
        ensures
            r == state_by_count(*board),
    {
        if board.white_count() == 0 {
            GameState::Winner(BLACK)
        } else if board.black_count() == 0 {
            GameState::Winner(WHITE)
        } else {
            GameState::InProgress
        }
    }
}

/// The index of square `id` among the 32 playable squares, counted row by row.
pub fn chess_to_checkers_id(id: &u8) -> (r: u8)
    ensures
        r == (*id / 8) * 4 + (*id % 8) / 2,
{
    let row = *id / 8;
    let col = *id % 8;
    row * 4 + col / 2
}

} // verus!
