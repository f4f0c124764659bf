use vstd::prelude::*;

use crate::board::{Board, PieceColor, DEFAULT_BLACK, DEFAULT_WHITE, WHITE};
use crate::movegen::{flatten, flatten_moves, moves_view, PossibleMoves};
use crate::moves::lemma_undo_applied;
use crate::player::{state_by_count, GameState};

verus! {

/// The turns of a game: the board, the side to move, where the game stands, and the square
/// of a piece that has captured and must capture again before the turn passes.
#[derive(Clone, Copy, Debug)]
pub struct CheckersGame {
    pub board: Board,
    pub turn: PieceColor,
    pub state: GameState,
    pub chain: Option<u8>,
}

impl CheckersGame {
    pub open spec fn wf(self) -> bool {
        &&& self.board.wf()
        &&& self.chain matches Some(s) ==> s < 64
    }

    /// What the side to move may play: while a capture chain goes on, the further jumps of
    /// the capturing piece alone; otherwise its legal move set.
    pub open spec fn options_spec(self) -> Seq<(u8, Seq<u8>)> {
        match self.chain {
            Some(s) => match self.board.piece_at(s as int) {
                Some(p) => seq![(s, self.board.jump_dests(s as int, p))],
                None => seq![],
            },
            None => self.board.legal_moves(self.turn),
        }
    }

    /// The game after the side to move plays `from` to `to`: a capture that leaves the
    /// capturing piece a further jump keeps the turn for that piece; otherwise the turn
    /// passes. A side left without pieces has lost.
    pub open spec fn after_move(self, from: u8, to: u8) -> CheckersGame {
        let b = self.board.applied(from, to);
        let st = state_by_count(b);
        let again = self.board.captures(from, to) && st == GameState::InProgress && (b.piece_at(
            to as int,
        ) matches Some(p) && b.jump_dests(to as int, p).len() > 0);
        CheckersGame {
            board: b,
            turn: if again {
                self.turn
            } else {
                !self.turn
            },
            state: st,
            chain: if again {
                Some(to)
            } else {
                None
            },
        }
    }

    /// A game at the standard starting position with white to move.
    pub fn new() -> (r: CheckersGame)
        ensures
            r.wf(),
            r.board.white == DEFAULT_WHITE && r.board.black == DEFAULT_BLACK && r.board.kings == 0,
            r.turn == WHITE,
            r.state == GameState::InProgress,
            r.chain.is_none(),
    {
        CheckersGame { board: Board::new(), turn: WHITE, state: GameState::InProgress, chain: None }
    }

    fn options(&self) -> (r: Vec<PossibleMoves>)
        requires
            self.wf(),
        ensures
            moves_view(r@) == self.options_spec(),
    {
        match self.chain {
            Some(s) => match self.board.possible_jumps_from(s) {
                Some(to) => {
                    let r = vec![PossibleMoves { from: s, to }];
                    assert(moves_view(r@) =~= self.options_spec());
                    r
                },
                None => {
                    let r: Vec<PossibleMoves> = Vec::new();
                    assert(moves_view(r@) =~= self.options_spec());
                    r
                },
            },
            None => self.board.possible_moves(self.turn),
        }
    }

    /// What the side to move may play now. When it has nothing to play, the game ends and
    /// the other side has won.
    pub fn current_moves(&mut self) -> (r: Vec<PossibleMoves>)
        requires
            old(self).wf(),
        ensures
            moves_view(r@) == old(self).options_spec(),
            final(self).state == (if old(self).state == GameState::InProgress && flatten(
                old(self).options_spec(),
            ).len() == 0 {
                GameState::Winner(!old(self).turn)
            } else {
                old(self).state
            }),
            final(self).board == old(self).board,
            final(self).turn == old(self).turn,
            final(self).chain == old(self).chain,
    {
        let r = self.options();
        let flat = flatten_moves(&r);
        if self.state == GameState::InProgress && flat.len() == 0 {
            self.state = GameState::Winner(!self.turn);
        }
        r
    }

    /// Whether a set of moves offers nothing, which ends the game for the side to move.
    pub fn is_game_over(possible_moves: &Vec<PossibleMoves>) -> (r: bool)
        ensures
            r == (possible_moves@.len() == 0),
    {
        possible_moves.len() == 0
    }

    /// Plays `from` to `to` for the side to move when it is one of the moves it may play now,
    /// and says whether it was; a move that is not offered changes nothing.
    pub fn play_move(&mut self, from: u8, to: u8) -> (r: bool)
        requires
            old(self).wf(),
        ensures
            r == flatten(old(self).options_spec()).contains((from, to)),
            r ==> *final(self) == old(self).after_move(from, to),
            !r ==> *final(self) == *old(self),
            final(self).wf(),
    {
        let opts = self.options();
        let flat = flatten_moves(&opts);
        let mut found = false;
        let mut i: usize = 0;
        while i < flat.len()
            invariant
                i <= flat@.len(),
                found == exists|k: int| 0 <= k < i && flat@[k] == (from, to),
            decreases flat@.len() - i,
        {
            if flat[i].0 == from && flat[i].1 == to {
                found = true;
            }
            i = i + 1;
        }
        if !found {
            return false;
        }
        let ghost g0 = *self;
        proof {
            let k = choose|k: int| 0 <= k < flat@.len() && flat@[k] == (from, to);
            match g0.chain {
                Some(s) => {
                    crate::movegen::lemma_flatten_members(g0.options_spec());
                    let p = g0.board.piece_at(s as int).unwrap();
                    g0.board.lemma_dests_empty(s as int, p, p.offsets().len());
                    let ms = g0.options_spec();
                    let d = choose|d: int| 0 <= d < ms[0].1.len() && ms[0].1[d] == to;
                    assert(g0.board.empty_at(ms[0].1[d] as int));
                },
                None => {
                    g0.board.lemma_legal_moves_ok(g0.turn);
                    assert(g0.board.move_ok(flat@[k].0, flat@[k].1));
                },
            }
            assert(g0.board.move_ok(from, to));
            lemma_undo_applied(g0.board, from, to);
        }
        let info = self.board.move_piece(from, to);
        let state = crate::player::BotPlayer::get_game_state(&self.board);
        self.state = state;
        let mut again = false;
        if info.is_capture() && state == GameState::InProgress {
            match self.board.possible_jumps_from(to) {
                Some(jumps) => {
                    again = jumps.len() > 0;
                },
                None => {},
            }
        }
        if again {
            self.chain = Some(to);
        } else {
            self.chain = None;
            self.turn = !self.turn;
        }
        true
    }
}

} // verus!
