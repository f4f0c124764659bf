use vstd::prelude::*;

use crate::board::{lemma_count_bound, Board, Piece, PieceColor, KING, WHITE};

verus! {

/// Bound on the magnitude of the material score of any board.
pub const MATERIAL_BOUND: i64 = 128;

/// Bound on the magnitude of the positional score of any board.
pub const POSITIONAL_BOUND: i64 = 2944;

/// A position-scoring strategy, chosen by its number: `1` for material, `2` for positional.
#[derive(Clone, Copy, Debug, PartialEq, Eq, Structural)]
pub enum Evaluator {
    /// One point per own man and two per own king, the opponent's counted negative.
    Material,
    /// A weight per piece by rank and place, in sixteenths: a man is worth more the closer
    /// it stands to its far row, a king the closer it stands to the centre.
    Positional,
}

/// The material score of `b` for `color`: +1 per own man, +2 per own king, and the same
/// negated for the opponent's pieces.
pub open spec fn material(b: Board, color: PieceColor) -> int {
    let own_men = b.pieces_of(color) - b.kings_of(color);
    let opp_men = b.pieces_of(!color) - b.kings_of(!color);
    (own_men + 2 * b.kings_of(color)) - (opp_men + 2 * b.kings_of(!color))
}

pub open spec fn abs(x: int) -> int {
    if x < 0 {
        -x
    } else {
        x
    }
}

/// The positional weight, in sixteenths, of `p` on square `s`: a man on row `r` is worth
/// `(r + 1) / 8` for white and `(8 - r) / 8` for black; a king is worth three less an
/// eighth of its distance from the centre, `|r - 3.5| + |c - 3.5|`.
pub open spec fn weight(p: Piece, s: int) -> int {
    let row = s / 8;
    let col = s % 8;
    if p.piece_type == KING {
        48 - (abs(2 * row - 7) + abs(2 * col - 7))
    } else if p.color == WHITE {
        2 * (row + 1)
    } else {
        2 * (8 - row)
    }
}

/// The positional score of the pieces on the squares below `n`, for `color`.
pub open spec fn positional_upto(b: Board, color: PieceColor, n: nat) -> int
    decreases n,
{
    if n == 0 {
        0
    } else {
        let s = n - 1;
        positional_upto(b, color, (n - 1) as nat) + match b.piece_at(s) {
            Some(p) => if p.color == color {
                weight(p, s)
            } else {
                -weight(p, s)
            },
            None => 0,
        }
    }
}

/// The positional score of `b` for `color`, in sixteenths.
pub open spec fn positional(b: Board, color: PieceColor) -> int {
    positional_upto(b, color, 64)
}

/// The score of `b` for `color` under `e`.
pub open spec fn evaluation(e: Evaluator, b: Board, color: PieceColor) -> int {
    match e {
        Evaluator::Material => material(b, color),
        Evaluator::Positional => positional(b, color),
    }
}

/// Every score lies within the evaluator's bound.
pub proof fn lemma_evaluation_bound(e: Evaluator, b: Board, color: PieceColor)
    ensures
        -MATERIAL_BOUND <= material(b, color) <= MATERIAL_BOUND,
        -POSITIONAL_BOUND <= positional(b, color) <= POSITIONAL_BOUND,
        -POSITIONAL_BOUND <= evaluation(e, b, color) <= POSITIONAL_BOUND,
{
    lemma_count_bound(b.side(color));
    lemma_count_bound(b.side(!color));
    lemma_count_bound(b.side(color) & b.kings);
    lemma_count_bound(b.side(!color) & b.kings);
    lemma_kings_within(b, color);
    lemma_kings_within(b, !color);
    lemma_positional_bound(b, color, 64);
}

proof fn lemma_kings_within(b: Board, color: PieceColor)
    ensures
        b.kings_of(color) <= b.pieces_of(color),
{
    crate::bits::lemma_and_or_not(b.side(color), b.kings);
    lemma_count_within(b.side(color) & b.kings, b.side(color), 64);
}

proof fn lemma_count_within(a: u64, m: u64, n: nat)
    requires
        n <= 64,
        forall|i: u64| i < 64 ==> #[trigger] crate::bits::bit(a, i) ==> crate::bits::bit(m, i),
    ensures
        crate::bits::count_below(a, n) <= crate::bits::count_below(m, n),
    decreases n,
{
    if n > 0 {
        lemma_count_within(a, m, (n - 1) as nat);
        assert(crate::bits::bit(a, (n - 1) as u64) ==> crate::bits::bit(m, (n - 1) as u64));
    }
}

proof fn lemma_weight_bound(p: Piece, s: int)
    requires
        0 <= s < 64,
    ensures
        0 <= weight(p, s) <= 46,
{
    let row = s / 8;
    let col = s % 8;
    assert(0 <= row < 8 && 0 <= col < 8);
    assert(abs(2 * row - 7) >= 1 && abs(2 * col - 7) >= 1);
}

proof fn lemma_positional_bound(b: Board, color: PieceColor, n: nat)
    requires
        n <= 64,
    ensures
        -46 * n <= positional_upto(b, color, n) <= 46 * n,
    decreases n,
{
    if n > 0 {
        lemma_positional_bound(b, color, (n - 1) as nat);
        if let Some(p) = b.piece_at(n - 1) {
            lemma_weight_bound(p, n - 1);
        }
    }
}

fn abs_diff_from_centre(x: i64) -> (r: i64)
    requires
        0 <= x < 8,
    ensures
        r == abs(2 * x - 7),
{
    if 2 * x >= 7 {
        2 * x - 7
    } else {
        7 - 2 * x
    }
}

impl Board {
    /// The material score for `color`: +1 per own man, +2 per own king, the opponent's
    /// pieces negated.
    pub fn eval_v1(&self, color: PieceColor) -> (r: i64)
        ensures
            r == material(*self, color),
    {
        proof {
            lemma_kings_within(*self, WHITE);
            lemma_kings_within(*self, !WHITE);
        }
        let white_men = (self.white_count() - self.white_king_count()) as i64;
        let black_men = (self.black_count() - self.black_king_count()) as i64;
        let white_score = white_men + 2 * (self.white_king_count() as i64);
        let black_score = black_men + 2 * (self.black_king_count() as i64);
        if color == WHITE {
            white_score - black_score
        } else {
            black_score - white_score
        }
    }

    /// The positional score for `color`, in sixteenths: men weigh more nearer their far
    /// row, kings nearer the centre; own pieces count positive, the opponent's negative.
    pub fn eval_v2(&self, color: PieceColor) -> (r: i64)
        ensures
            r == positional(*self, color),
    {
        let mut score: i64 = 0;
        let mut i: u8 = 0;
        while i < 64
            invariant
                i <= 64,
                score == positional_upto(*self, color, i as nat),
            decreases 64 - i,
        {
            proof {
                lemma_positional_bound(*self, color, i as nat);
                if let Some(p) = self.piece_at(i as int) {
                    lemma_weight_bound(p, i as int);
                }
            }
            if let Some(piece) = self.get_piece(i) {
                let row = (i / 8) as i64;
                let col = (i % 8) as i64;
                let w: i64 = if piece.piece_type == KING {
                    48 - (abs_diff_from_centre(row) + abs_diff_from_centre(col))
                } else if piece.color == WHITE {
                    2 * (row + 1)
                } else {
                    2 * (8 - row)
                };
                if piece.color == color {
                    score = score + w;
                } else {
                    score = score - w;
                }
            }
            i = i + 1;
        }
        score
    }
}

/// The material score of `board` for `color`.
pub fn v1(board: &Board, color: PieceColor) -> (r: i64)
    ensures
        r == material(*board, color),
{
    board.eval_v1(color)
}

/// The positional score of `board` for `color`, in sixteenths.
pub fn v2(board: &Board, color: PieceColor) -> (r: i64)
    ensures
        r == positional(*board, color),
{
    board.eval_v2(color)
}

impl Evaluator {
    /// The evaluator of number `id`: `1` material, `2` positional; `None` for any other.
    pub fn from_id(id: u8) -> (r: Option<Evaluator>)
        ensures
            id == 1 ==> r == Some(Evaluator::Material),
            id == 2 ==> r == Some(Evaluator::Positional),
            id != 1 && id != 2 ==> r.is_none(),
    {
        if id == 1 {
            Some(Evaluator::Material)
        } else if id == 2 {
            Some(Evaluator::Positional)
        } else {
            None
        }
    }

    /// The score of `board` for `color`.
    pub fn evaluate(&self, board: &Board, color: PieceColor) -> (r: i64)
        ensures
            r == evaluation(*self, *board, color),
    {
        match self {
            Evaluator::Material => board.eval_v1(color),
            Evaluator::Positional => board.eval_v2(color),
        }
    }
}

} // verus!
