use vstd::prelude::*;

use crate::bits::{
    bit, clear_bit, group_bit_updates, lemma_ext, set_bit, test_bit, with_bit, without_bit,
};
use crate::board::{Board, Piece, BLACK, KING, MAN, WHITE};

verus! {

broadcast use group_bit_updates;

/// What `move_piece` did, enough for `undo_move` to take it back.
#[derive(Debug, Clone, Copy, PartialEq, Eq, Structural)]
pub struct MoveInfo {
    pub from: u8,
    pub to: u8,
    /// The piece that was captured, if any.
    pub jumped_piece: Option<Piece>,
    /// The square of the captured piece, if any.
    pub jumped_piece_id: Option<u8>,
    /// Whether this move made a man a king.
    pub crowned: bool,
}

impl MoveInfo {
    /// Whether the move captured a piece; a capture does not end the turn.
    pub fn is_capture(&self) -> (r: bool)
        ensures
            r == self.jumped_piece.is_some(),
    {
        self.jumped_piece.is_some()
    }
}

/// Whether the distance between two squares is that of a jump (twice a diagonal step).
pub open spec fn jump_distance(from: int, to: int) -> bool {
    from - to == 14 || from - to == 18 || to - from == 14 || to - from == 18
}

/// Whether `to` is the far row of `color`: row 7 for white, row 0 for black.
pub open spec fn promotion_row(color: bool, to: int) -> bool {
    if color == WHITE {
        to / 8 == 7
    } else {
        to / 8 == 0
    }
}

/// `m` with the bit of `f`, if set, moved to `t`.
pub open spec fn relocated(m: u64, f: u64, t: u64) -> u64 {
    if bit(m, f) {
        with_bit(without_bit(m, f), t)
    } else {
        m
    }
}

impl Board {
    /// The piece on `f`, with its bit in its side's mask and in `kings`, moved to `t`.
    pub open spec fn relocate(self, f: u64, t: u64) -> Board {
        Board {
            white: relocated(self.white, f, t),
            black: if bit(self.white, f) {
                self.black
            } else {
                relocated(self.black, f, t)
            },
            kings: relocated(self.kings, f, t),
        }
    }

    /// The board with square `s` cleared in all three masks.
    pub open spec fn cleared(self, s: u64) -> Board {
        Board {
            white: without_bit(self.white, s),
            black: without_bit(self.black, s),
            kings: without_bit(self.kings, s),
        }
    }

    /// The board with `p` put on square `s`.
    pub open spec fn with_piece(self, s: u64, p: Piece) -> Board {
        Board {
            white: if p.color == WHITE {
                with_bit(self.white, s)
            } else {
                self.white
            },
            black: if p.color == BLACK {
                with_bit(self.black, s)
            } else {
                self.black
            },
            kings: if p.piece_type == KING {
                with_bit(self.kings, s)
            } else {
                self.kings
            },
        }
    }

    /// Whether moving from `from` to `to` captures: the distance is a jump's and the
    /// square between holds a piece.
    pub open spec fn captures(self, from: u8, to: u8) -> bool {
        jump_distance(from as int, to as int) && self.occupied_at((from + to) / 2)
    }

    /// Whether moving from `from` to `to` promotes: the piece on `from` is a man and `to`
    /// is its far row.
    pub open spec fn promotes(self, from: u8, to: u8) -> bool {
        match self.piece_at(from as int) {
            Some(p) => p.piece_type == MAN && promotion_row(p.color, to as int),
            None => false,
        }
    }

    /// The position after moving the piece on `from` to `to`: the piece is moved, the piece
    /// it jumps over (if any) is removed, and a man reaching its far row is made a king.
    pub open spec fn applied(self, from: u8, to: u8) -> Board {
        let m1 = self.relocate(from as u64, to as u64);
        let m2 = if self.captures(from, to) {
            m1.cleared(((from + to) / 2) as u64)
        } else {
            m1
        };
        if self.promotes(from, to) {
            Board { kings: with_bit(m2.kings, to as u64), ..m2 }
        } else {
            m2
        }
    }

    /// The record of moving the piece on `from` to `to`.
    pub open spec fn record(self, from: u8, to: u8) -> MoveInfo {
        let mid = (from + to) / 2;
        MoveInfo {
            from,
            to,
            jumped_piece: if self.captures(from, to) {
                self.piece_at(mid)
            } else {
                None
            },
            jumped_piece_id: if self.captures(from, to) {
                Some(mid as u8)
            } else {
                None
            },
            crowned: self.promotes(from, to),
        }
    }

    /// The position after taking back the move of `rec`: the piece goes back from `to` to
    /// `from`, the captured piece is put back, and a king made by that move is a man again.
    pub open spec fn undone(self, rec: MoveInfo) -> Board {
        let m1 = self.relocate(rec.to as u64, rec.from as u64);
        let m2 = match (rec.jumped_piece_id, rec.jumped_piece) {
            (Some(s), Some(p)) => m1.with_piece(s as u64, p),
            _ => m1,
        };
        if rec.crowned {
            Board { kings: without_bit(m2.kings, rec.from as u64), ..m2 }
        } else {
            m2
        }
    }

    /// A move that the board can take: two distinct squares, a piece on the first and none
    /// on the second.
    pub open spec fn move_ok(self, from: u8, to: u8) -> bool {
        &&& from < 64
        &&& to < 64
        &&& from != to
        &&& self.occupied_at(from as int)
        &&& !self.occupied_at(to as int)
    }

    fn add_piece(&mut self, id: u8, piece: Piece)
        requires
            id < 64,
        ensures
            *final(self) == old(self).with_piece(id as u64, piece),
    {
        if piece.color == WHITE {
            self.white = set_bit(self.white, id);
        } else {
            self.black = set_bit(self.black, id);
        }
        if piece.piece_type == KING {
            self.kings = set_bit(self.kings, id);
        }
    }

    fn relocate_piece(&mut self, from: u8, to: u8)
        requires
            from < 64,
            to < 64,
        ensures
            *final(self) == old(self).relocate(from as u64, to as u64),
    {
        if test_bit(self.white, from) {
            self.white = set_bit(clear_bit(self.white, from), to);
        } else if test_bit(self.black, from) {
            self.black = set_bit(clear_bit(self.black, from), to);
        }
        if test_bit(self.kings, from) {
            self.kings = set_bit(clear_bit(self.kings, from), to);
        }
    }

    /// Clears square `id` in all three masks.
    pub fn remove_piece(&mut self, id: u8)
        requires
            id < 64,
        ensures
            *final(self) == old(self).cleared(id as u64),
    {
        self.white = clear_bit(self.white, id);
        self.black = clear_bit(self.black, id);
        self.kings = clear_bit(self.kings, id);
    }

    /// Makes the piece on `id` a king.
    pub fn king_piece(&mut self, id: u8)
        requires
            id < 64,
        ensures
            *final(self) == (Board { kings: with_bit(old(self).kings, id as u64), ..*old(self) }),
    {
        self.kings = set_bit(self.kings, id);
    }

    /// Moves the piece on `from` to `to`, without checking that the move is legal; removes
    /// the piece jumped over, if any, and crowns a man that reaches its far row. Returns
    /// the record that `undo_move` takes.
    pub fn move_piece(&mut self, from: u8, to: u8) -> (r: MoveInfo)
        requires
            from < 64,
            to < 64,
        ensures
            *final(self) == old(self).applied(from, to),
            r == old(self).record(from, to),
    {
        let mid: u8 = (from + to) / 2;
        let distance: u8 = if from > to {
            from - to
        } else {
            to - from
        };
        let jumped_piece = if distance == 14 || distance == 18 {
            self.get_piece(mid)
        } else {
            None
        };
        let crowned = match self.get_piece(from) {
            Some(p) => p.piece_type == MAN && (if p.color == WHITE {
                to / 8 == 7
            } else {
                to / 8 == 0
            }),
            None => false,
        };
        self.relocate_piece(from, to);
        let jumped_piece_id = if jumped_piece.is_some() {
            self.remove_piece(mid);
            Some(mid)
        } else {
            None
        };
        if crowned {
            self.king_piece(to);
        }
        MoveInfo { from, to, jumped_piece, jumped_piece_id, crowned }
    }

    /// Takes back the move that produced `move_info`.
    pub fn undo_move(&mut self, move_info: MoveInfo)
        requires
            move_info.from < 64,
            move_info.to < 64,
            move_info.jumped_piece_id matches Some(s) ==> s < 64,
        ensures
            *final(self) == old(self).undone(move_info),
    {
        self.relocate_piece(move_info.to, move_info.from);
        match (move_info.jumped_piece_id, move_info.jumped_piece) {
            (Some(id), Some(piece)) => self.add_piece(id, piece),
            _ => {},
        }
        if move_info.crowned {
            self.kings = clear_bit(self.kings, move_info.from);
        }
    }
}

proof fn lemma_applied_bits(b: Board, from: u8, to: u8)
    requires
        b.wf(),
        b.move_ok(from, to),
    ensures
        ({
            let a = b.applied(from, to);
            let mid = ((from + to) / 2) as u64;
            &&& mid < 64
            &&& b.captures(from, to) ==> mid != from as u64 && mid != to as u64
            &&& forall|i: u64|
                i < 64 ==> #[trigger] bit(a.white, i) == (if i == to as u64 {
                    bit(b.white, from as u64)
                } else if i == from as u64 || (b.captures(from, to) && i == mid) {
                    false
                } else {
                    bit(b.white, i)
                }) && bit(a.black, i) == (if i == to as u64 {
                    bit(b.black, from as u64)
                } else if i == from as u64 || (b.captures(from, to) && i == mid) {
                    false
                } else {
                    bit(b.black, i)
                }) && bit(a.kings, i) == (if i == to as u64 {
                    bit(b.kings, from as u64) || b.promotes(from, to)
                } else if i == from as u64 || (b.captures(from, to) && i == mid) {
                    false
                } else {
                    bit(b.kings, i)
                })
        }),
{
    b.lemma_wf_squares();
}

/// Undoing a move restores the position bit for bit, and a move keeps the position well
/// formed: no square is both white and black, and each king is a piece of one side.
pub proof fn lemma_undo_applied(b: Board, from: u8, to: u8)
    requires
        b.wf(),
        b.move_ok(from, to),
    ensures
        b.applied(from, to).wf(),
        b.applied(from, to).undone(b.record(from, to)) == b,
{
    let a = b.applied(from, to);
    let u = a.undone(b.record(from, to));
    b.lemma_wf_squares();
    lemma_applied_bits(b, from, to);
    assert(a.wf_squares());
    a.lemma_wf_squares();
    assert forall|i: u64| i < 64 implies #[trigger] bit(u.white, i) == bit(b.white, i) by {}
    assert forall|i: u64| i < 64 implies #[trigger] bit(u.black, i) == bit(b.black, i) by {}
    assert forall|i: u64| i < 64 implies #[trigger] bit(u.kings, i) == bit(b.kings, i) by {}
    lemma_ext(u.white, b.white);
    lemma_ext(u.black, b.black);
    lemma_ext(u.kings, b.kings);
}

/// A move, square by square: the moving piece leaves `from` and stands on `to`, a king if
/// it was one or if the move crowned it; a captured piece leaves the square between; every
/// other square keeps its piece. The record says that the move crowned exactly when the
/// piece was a man reaching its far row, so taking the move back turns a crowned man back
/// into a man and leaves a king that moved a king.
pub proof fn lemma_applied_pieces(b: Board, from: u8, to: u8)
    requires
        b.wf(),
        b.move_ok(from, to),
    ensures
        ({
            let a = b.applied(from, to);
            let p = b.piece_at(from as int).unwrap();
            let mid = (from + to) / 2;
            &&& a.piece_at(to as int) == Some(
                Piece { color: p.color, piece_type: p.piece_type || b.promotes(from, to) },
            )
            &&& b.record(from, to).crowned == (p.piece_type == MAN && promotion_row(
                p.color,
                to as int,
            ))
            &&& b.record(from, to).jumped_piece.is_some() == b.captures(from, to)
            &&& forall|s: int|
                0 <= s < 64 && s != to ==> #[trigger] a.piece_at(s) == (if s == from || (
                b.captures(from, to) && s == mid) {
                    None
                } else {
                    b.piece_at(s)
                })
            &&& a.undone(b.record(from, to)).piece_at(from as int) == b.piece_at(from as int)
        }),
{
    lemma_applied_bits(b, from, to);
    lemma_undo_applied(b, from, to);
    let a = b.applied(from, to);
    let mid = (from + to) / 2;
    assert forall|s: int| 0 <= s < 64 && s != to implies #[trigger] a.piece_at(s) == (if s == from
        || (b.captures(from, to) && s == mid) {
        None
    } else {
        b.piece_at(s)
    }) by {}
}

} // verus!
