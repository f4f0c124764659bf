use vstd::prelude::*;

use crate::bits::{bit, count, count_ones, lemma_and_or_not, lemma_count_below_bound, test_bit};

verus! {

/// A side: `WHITE` or `BLACK`.
pub type PieceColor = bool;

pub const WHITE: PieceColor = true;

pub const BLACK: PieceColor = false;

/// A rank: `MAN` or `KING`.
pub type PieceType = bool;

pub const MAN: PieceType = false;

pub const KING: PieceType = true;

/// A set of squares, one bit per square `row * 8 + col`.
pub type Bitboard = u64;

/// White men on rows 0 to 2.
pub const DEFAULT_WHITE: Bitboard = 0x0000_0000_0055_AA55;

/// Black men on rows 5 to 7.
pub const DEFAULT_BLACK: Bitboard = 0xAA55_AA00_0000_0000;

/// A piece: its side and its rank.
#[derive(Clone, Copy, Debug, PartialEq, Eq, Structural)]
pub struct Piece {
    pub color: PieceColor,
    pub piece_type: PieceType,
}

/// A position: the squares of the white pieces, of the black pieces, and of the kings
/// of either side.
#[derive(Clone, Copy, Debug, PartialEq, Eq, Structural, Hash)]
pub struct Board {
    pub white: Bitboard,
    pub black: Bitboard,
    pub kings: Bitboard,
}

/// Whether `s` is a square of the board that pieces may stand on.
pub open spec fn playable(s: int) -> bool {
    0 <= s < 64 && (s % 8 + s / 8) % 2 == 0
}

impl Board {
    /// No square is both white and black, and every king is a piece of one side.
    pub open spec fn wf(self) -> bool {
        &&& self.white & self.black == 0
        &&& self.kings & !(self.white | self.black) == 0
    }

    /// The same invariant, square by square.
    pub open spec fn wf_squares(self) -> bool {
        forall|i: u64|
            i < 64 ==> !(#[trigger] bit(self.white, i) && bit(self.black, i)) && (bit(self.kings, i)
                ==> bit(self.white, i) || bit(self.black, i))
    }

    pub open spec fn occupied_at(self, s: int) -> bool {
        bit(self.white, s as u64) || bit(self.black, s as u64)
    }

    /// The piece on square `s`, if any.
    pub open spec fn piece_at(self, s: int) -> Option<Piece> {
        if bit(self.white, s as u64) {
            Some(Piece { color: WHITE, piece_type: bit(self.kings, s as u64) })
        } else if bit(self.black, s as u64) {
            Some(Piece { color: BLACK, piece_type: bit(self.kings, s as u64) })
        } else {
            None
        }
    }

    /// The mask of one side's pieces.
    pub open spec fn side(self, color: PieceColor) -> Bitboard {
        if color == WHITE {
            self.white
        } else {
            self.black
        }
    }

    /// Number of pieces of a side.
    pub open spec fn pieces_of(self, color: PieceColor) -> nat {
        count(self.side(color))
    }

    /// Number of kings of a side.
    pub open spec fn kings_of(self, color: PieceColor) -> nat {
        count(self.side(color) & self.kings)
    }

    pub proof fn lemma_wf_squares(self)
        ensures
            self.wf() <==> self.wf_squares(),
    {
        lemma_and_or_not(self.white, self.black);
        lemma_and_or_not(self.white | self.black, 0);
        lemma_and_or_not(self.kings, !(self.white | self.black));
        lemma_and_or_not(self.white | self.black, self.kings);
        if self.wf() {
            assert forall|i: u64| i < 64 implies !(#[trigger] bit(self.white, i) && bit(
                self.black,
                i,
            )) && (bit(self.kings, i) ==> bit(self.white, i) || bit(self.black, i)) by {
                assert(!bit(self.white & self.black, i));
                assert(!bit(self.kings & !(self.white | self.black), i));
            }
        }
        if self.wf_squares() {
            assert forall|i: u64| i < 64 implies #[trigger] bit(self.white & self.black, i) == bit(
                0u64,
                i,
            ) by {}
            crate::bits::lemma_ext(self.white & self.black, 0);
            let m = self.kings & !(self.white | self.black);
            assert forall|i: u64| i < 64 implies #[trigger] bit(m, i) == bit(0u64, i) by {}
            crate::bits::lemma_ext(m, 0);
        }
    }

    /// The standard starting position: men on the three rows nearest each side's edge.
    pub fn new() -> (r: Board)
        ensures
            r.wf(),
            r.white == DEFAULT_WHITE,
            r.black == DEFAULT_BLACK,
            r.kings == 0,
    {
        let r = Board { white: DEFAULT_WHITE, black: DEFAULT_BLACK, kings: 0 };
        assert(0x0000_0000_0055_AA55u64 & 0xAA55_AA00_0000_0000u64 == 0 && 0u64 & !(
        0x0000_0000_0055_AA55u64 | 0xAA55_AA00_0000_0000u64) == 0) by (bit_vector);
        r
    }

    /// The empty board.
    pub fn empty() -> (r: Board)
        ensures
            r.wf(),
            r.white == 0 && r.black == 0 && r.kings == 0,
    {
        let r = Board { white: 0, black: 0, kings: 0 };
        assert(0u64 & 0u64 == 0 && 0u64 & !(0u64 | 0u64) == 0) by (bit_vector);
        r
    }

    /// The square id of a row and a column.
    pub fn get_id_from_coords(row: u8, col: u8) -> (r: u8)
        requires
            row < 8,
            col < 8,
        ensures
            r == row * 8 + col,
    {
        row * 8 + col
    }

    /// The mask holding the one square of a row and a column.
    pub fn coords_to_bitboard(row: u8, col: u8) -> (r: Bitboard)
        requires
            row < 8,
            col < 8,
        ensures
            r == crate::bits::single((row * 8 + col) as u64),
    {
        1u64 << ((row * 8 + col) as u64)
    }

    /// The squares of both sides.
    pub fn get_white_black(&self) -> (r: Bitboard)
        ensures
            r == self.white | self.black,
    {
        self.white | self.black
    }

    /// The piece on square `id`, if any.
    pub fn get_piece(&self, id: u8) -> (r: Option<Piece>)
        requires
            id < 64,
        ensures
            r == self.piece_at(id as int),
    {
        let piece_type = test_bit(self.kings, id);
        if test_bit(self.white, id) {
            Some(Piece { color: WHITE, piece_type })
        } else if test_bit(self.black, id) {
            Some(Piece { color: BLACK, piece_type })
        } else {
            None
        }
    }

    /// The piece on a row and a column, if any.
    pub fn get_piece_by_coords(&self, row: u8, col: u8) -> (r: Option<Piece>)
        requires
            row < 8,
            col < 8,
        ensures
            r == self.piece_at(row * 8 + col),
    {
        self.get_piece(Self::get_id_from_coords(row, col))
    }

    /// Whether square `id` holds a piece.
    pub fn occupied(&self, id: u8) -> (r: bool)
        requires
            id < 64,
        ensures
            r == self.occupied_at(id as int),
    {
        test_bit(self.white, id) || test_bit(self.black, id)
    }

    pub fn white_count(&self) -> (r: u8)
        ensures
            r == self.pieces_of(WHITE),
    {
        count_ones(self.white)
    }

    pub fn black_count(&self) -> (r: u8)
        ensures
            r == self.pieces_of(BLACK),
    {
        count_ones(self.black)
    }

    fn count_kings(&self, color: PieceColor) -> (r: u8)
        ensures
            r == self.kings_of(color),
    {
        count_ones(
            (if color == WHITE {
                self.white
            } else {
                self.black
            }) & self.kings,
        )
    }

    pub fn white_king_count(&self) -> (r: u8)
        ensures
            r == self.kings_of(WHITE),
    {
        self.count_kings(WHITE)
    }

    pub fn black_king_count(&self) -> (r: u8)
        ensures
            r == self.kings_of(BLACK),
    {
        self.count_kings(BLACK)
    }
}

/// A side has at most 64 pieces.
pub proof fn lemma_count_bound(m: u64)
    ensures
        count(m) <= 64,
{
    lemma_count_below_bound(m, 64);
}

} // verus!
