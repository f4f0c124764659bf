use vstd::prelude::*;

use crate::bits::{bit, test_bit};
use crate::board::{playable, Board, Piece, PieceColor, KING, WHITE};

verus! {

/// Distance to the diagonal neighbour on the left, towards the white side's far row.
pub const LEFT_DISTANCE: i8 = 7;

/// Distance to the diagonal neighbour on the right, towards the white side's far row.
pub const RIGHT_DISTANCE: i8 = 9;

/// The destinations of one piece of a legal move set.
#[derive(Debug, Clone)]
pub struct PossibleMoves {
    pub from: u8,
    pub to: Vec<u8>,
}

impl View for PossibleMoves {
    type V = (u8, Seq<u8>);

    open spec fn view(&self) -> (u8, Seq<u8>) {
        (self.from, self.to@)
    }
}

/// The view of a list of move entries.
pub open spec fn moves_view(v: Seq<PossibleMoves>) -> Seq<(u8, Seq<u8>)> {
    v.map_values(|m: PossibleMoves| m@)
}

impl Piece {
    /// `1` for white, which moves towards row 7; `-1` for black.
    pub open spec fn direction(self) -> int {
        if self.color == WHITE {
            1
        } else {
            -1
        }
    }

    /// The square offsets of the diagonal neighbours this piece may move towards: the two
    /// forward ones for a man, all four for a king.
    pub open spec fn offsets(self) -> Seq<int> {
        let d = self.direction();
        if self.piece_type == KING {
            seq![7 * d, 9 * d, -9 * d, -7 * d]
        } else {
            seq![7 * d, 9 * d]
        }
    }

    fn get_move_direction(&self) -> (r: i8)
        ensures
            r == self.direction(),
    {
        if self.color == WHITE {
            1
        } else {
            -1
        }
    }

    /// The offsets of `offsets`, in that order.
    pub fn get_reachable_squares(&self) -> (r: Vec<i8>)
        ensures
            r@.len() == self.offsets().len(),
            forall|i: int| 0 <= i < r@.len() ==> r@[i] == #[trigger] self.offsets()[i],
    {
        let dir = self.get_move_direction();
        let mut offsets = vec![LEFT_DISTANCE * dir, RIGHT_DISTANCE * dir];
        if self.piece_type == KING {
            offsets.push(-RIGHT_DISTANCE * dir);
            offsets.push(-LEFT_DISTANCE * dir);
        }
        offsets
    }
}

impl Board {
    /// Whether `t` is a playable square with no piece on it.
    pub open spec fn empty_at(self, t: int) -> bool {
        playable(t) && !self.occupied_at(t)
    }

    /// Whether `t` is a playable square holding a piece of the side opposing `color`.
    pub open spec fn opponent_at(self, color: PieceColor, t: int) -> bool {
        playable(t) && bit(self.side(!color), t as u64)
    }

    /// The step destinations from `s` over the first `n` offsets of `p`.
    pub open spec fn steps_upto(self, s: int, p: Piece, n: nat) -> Seq<u8>
        decreases n,
    {
        if n == 0 {
            seq![]
        } else {
            let prev = self.steps_upto(s, p, (n - 1) as nat);
            let t = s + p.offsets()[n - 1];
            if self.empty_at(t) {
                prev.push(t as u8)
            } else {
                prev
            }
        }
    }

    /// The jump destinations from `s` over the first `n` offsets of `p`.
    pub open spec fn jumps_upto(self, s: int, p: Piece, n: nat) -> Seq<u8>
        decreases n,
    {
        if n == 0 {
            seq![]
        } else {
            let prev = self.jumps_upto(s, p, (n - 1) as nat);
            let o = p.offsets()[n - 1];
            if self.opponent_at(p.color, s + o) && self.empty_at(s + 2 * o) {
                prev.push((s + 2 * o) as u8)
            } else {
                prev
            }
        }
    }

    /// Where `p` on `s` can step: each adjacent square in its directions that is empty.
    pub open spec fn step_dests(self, s: int, p: Piece) -> Seq<u8> {
        self.steps_upto(s, p, p.offsets().len())
    }

    /// Where `p` on `s` can jump: for each of its directions, the square two steps away when
    /// the adjacent square holds an opposing piece and that square is empty.
    pub open spec fn jump_dests(self, s: int, p: Piece) -> Seq<u8> {
        self.jumps_upto(s, p, p.offsets().len())
    }

    /// The pieces of `color` on the squares below `n` that can jump, with their jumps.
    pub open spec fn jumpers_upto(self, color: PieceColor, n: nat) -> Seq<(u8, Seq<u8>)>
        decreases n,
    {
        if n == 0 {
            seq![]
        } else {
            let prev = self.jumpers_upto(color, (n - 1) as nat);
            let s = n - 1;
            match self.piece_at(s) {
                Some(p) => if p.color == color && self.jump_dests(s, p).len() > 0 {
                    prev.push((s as u8, self.jump_dests(s, p)))
                } else {
                    prev
                },
                None => prev,
            }
        }
    }

    /// The pieces of `color` on the squares below `n` that cannot jump but can step, with
    /// their steps.
    pub open spec fn steppers_upto(self, color: PieceColor, n: nat) -> Seq<(u8, Seq<u8>)>
        decreases n,
    {
        if n == 0 {
            seq![]
        } else {
            let prev = self.steppers_upto(color, (n - 1) as nat);
            let s = n - 1;
            match self.piece_at(s) {
                Some(p) => if p.color == color && self.jump_dests(s, p).len() == 0
                    && self.step_dests(s, p).len() > 0 {
                    prev.push((s as u8, self.step_dests(s, p)))
                } else {
                    prev
                },
                None => prev,
            }
        }
    }

    /// The legal move set of `color`, by increasing origin: the pieces that can jump with
    /// their jumps if there is any such piece, else the pieces that can step with their steps.
    pub open spec fn legal_moves(self, color: PieceColor) -> Seq<(u8, Seq<u8>)> {
        let j = self.jumpers_upto(color, 64);
        if j.len() > 0 {
            j
        } else {
            self.steppers_upto(color, 64)
        }
    }

    fn is_valid_id(id: i8) -> (r: bool)
        ensures
            r == playable(id as int),
    {
        if id < 0 {
            false
        } else {
            let u = id as u8;
            u < 64 && (u % 8 + u / 8) % 2 == 0
        }
    }

    fn is_valid_and_empty(&self, id: i8) -> (r: bool)
        ensures
            r == self.empty_at(id as int),
    {
        Self::is_valid_id(id) && !self.occupied(id as u8)
    }

    fn is_valid_and_opponent(&self, id: i8, color: PieceColor) -> (r: bool)
        ensures
            r == self.opponent_at(color, id as int),
    {
        Self::is_valid_id(id) && test_bit(
            if color == WHITE {
                self.black
            } else {
                self.white
            },
            id as u8,
        )
    }

    fn get_open_squares_from(&self, from: u8, piece: &Piece) -> (r: Vec<u8>)
        requires
            from < 64,
        ensures
            r@ == self.step_dests(from as int, *piece),
    {
        let squares = piece.get_reachable_squares();
        let mut out: Vec<u8> = Vec::new();
        let mut i: usize = 0;
        while i < squares.len()
            invariant
                from < 64,
                i <= squares@.len(),
                squares@.len() == piece.offsets().len(),
                forall|k: int| 0 <= k < squares@.len() ==> squares@[k] == #[trigger] piece.offsets()[k],
                out@ == self.steps_upto(from as int, *piece, i as nat),
            decreases squares@.len() - i,
        {
            let id: i8 = from as i8 + squares[i];
            if self.is_valid_and_empty(id) {
                out.push(id as u8);
            }
            i = i + 1;
        }
        out
    }

    fn get_jumps_from(&self, from: u8, piece: &Piece) -> (r: Vec<u8>)
        requires
            from < 64,
        ensures
            r@ == self.jump_dests(from as int, *piece),
    {
        let squares = piece.get_reachable_squares();
        let mut out: Vec<u8> = Vec::new();
        let mut i: usize = 0;
        while i < squares.len()
            invariant
                from < 64,
                i <= squares@.len(),
                squares@.len() == piece.offsets().len(),
                forall|k: int| 0 <= k < squares@.len() ==> squares@[k] == #[trigger] piece.offsets()[k],
                out@ == self.jumps_upto(from as int, *piece, i as nat),
            decreases squares@.len() - i,
        {
            let over: i8 = from as i8 + squares[i];
            let land: i8 = over + squares[i];
            if self.is_valid_and_opponent(over, piece.color) && self.is_valid_and_empty(land) {
                out.push(land as u8);
            }
            i = i + 1;
        }
        out
    }

    /// The legal move set of `color`: when any of its pieces can jump, exactly the pieces
    /// that can jump, each with its jumps; otherwise the pieces that can step, each with its
    /// steps. Origins come in increasing order; a side without pieces gets an empty set.
    pub fn possible_moves(&self, color: PieceColor) -> (r: Vec<PossibleMoves>)
        ensures
            moves_view(r@) == self.legal_moves(color),
    {
        let mut moves: Vec<PossibleMoves> = Vec::new();
        let mut jumps: Vec<PossibleMoves> = Vec::new();
        let mut i: u8 = 0;
        while i < 64
            invariant
                i <= 64,
                moves_view(jumps@) == self.jumpers_upto(color, i as nat),
                moves_view(moves@) == self.steppers_upto(color, i as nat),
            decreases 64 - i,
        {
            if let Some(piece) = self.get_piece(i) {
                if piece.color == color {
                    let tos = self.get_jumps_from(i, &piece);
                    if tos.len() > 0 {
                        let ghost before = jumps@;
                        jumps.push(PossibleMoves { from: i, to: tos });
                        assert(moves_view(jumps@) =~= moves_view(before).push((i, tos@)));
                    } else {
                        let tos = self.get_open_squares_from(i, &piece);
                        if tos.len() > 0 {
                            let ghost before = moves@;
                            moves.push(PossibleMoves { from: i, to: tos });
                            assert(moves_view(moves@) =~= moves_view(before).push((i, tos@)));
                        }
                    }
                }
            }
            i = i + 1;
        }
        if jumps.len() > 0 {
            jumps
        } else {
            moves
        }
    }

    /// The jumps that the piece on `from` can make next, or `None` when `from` is empty.
    /// Other pieces' jumps play no part: this is the query that continues a capture chain.
    pub fn possible_jumps_from(&self, from: u8) -> (r: Option<Vec<u8>>)
        requires
            from < 64,
        ensures
            r.is_some() == self.piece_at(from as int).is_some(),
            r.is_some() ==> r.unwrap()@ == self.jump_dests(from as int, self.piece_at(from as int).unwrap()),
    {
        match self.get_piece(from) {
            Some(piece) => Some(self.get_jumps_from(from, &piece)),
            None => None,
        }
    }
}

/// The moves of a legal move set as `(from, to)` pairs, in scan order: origins in the order
/// of the set, and for each origin its destinations in order.
pub open spec fn flatten(ms: Seq<(u8, Seq<u8>)>) -> Seq<(u8, u8)>
    decreases ms.len(),
{
    if ms.len() == 0 {
        seq![]
    } else {
        let e = ms.last();
        flatten(ms.drop_last()) + e.1.map_values(|t: u8| (e.0, t))
    }
}

/// Every pair of `flatten(ms)` is an origin of `ms` with one of its destinations.
pub proof fn lemma_flatten_members(ms: Seq<(u8, Seq<u8>)>)
    ensures
        forall|k: int|
            0 <= k < flatten(ms).len() ==> exists|j: int|
                0 <= j < ms.len() && ms[j].0 == (#[trigger] flatten(ms)[k]).0 && ms[j].1.contains(
                    flatten(ms)[k].1,
                ),
    decreases ms.len(),
{
    if ms.len() > 0 {
        let init = ms.drop_last();
        let e = ms.last();
        lemma_flatten_members(init);
        assert forall|k: int| 0 <= k < flatten(ms).len() implies exists|j: int|
            0 <= j < ms.len() && ms[j].0 == (#[trigger] flatten(ms)[k]).0 && ms[j].1.contains(
                flatten(ms)[k].1,
            ) by {
            if k < flatten(init).len() {
                let j = choose|j: int|
                    0 <= j < init.len() && init[j].0 == flatten(init)[k].0 && init[j].1.contains(
                        flatten(init)[k].1,
                    );
                assert(ms[j] == init[j]);
            } else {
                let d = k - flatten(init).len();
                assert(e.1[d] == flatten(ms)[k].1);
                assert(ms[ms.len() - 1].1.contains(flatten(ms)[k].1));
            }
        }
    }
}

/// Lays out a legal move set as `(from, to)` pairs in scan order.
pub fn flatten_moves(moves: &Vec<PossibleMoves>) -> (r: Vec<(u8, u8)>)
    ensures
        r@ == flatten(moves_view(moves@)),
{
    let mut out: Vec<(u8, u8)> = Vec::new();
    let mut i: usize = 0;
    while i < moves.len()
        invariant
            i <= moves@.len(),
            out@ == flatten(moves_view(moves@.take(i as int))),
        decreases moves@.len() - i,
    {
        let from = moves[i].from;
        let tos = &moves[i].to;
        let ghost base = out@;
        let mut j: usize = 0;
        while j < tos.len()
            invariant
                i < moves@.len(),
                tos == &moves@[i as int].to,
                from == moves@[i as int].from,
                j <= tos@.len(),
                out@ == base + tos@.take(j as int).map_values(|t: u8| (from, t)),
            decreases tos@.len() - j,
        {
            out.push((from, tos[j]));
            j = j + 1;
            assert(out@ =~= base + tos@.take(j as int).map_values(|t: u8| (from, t)));
        }
        let ghost next = moves_view(moves@.take(i + 1));
        assert(next.drop_last() =~= moves_view(moves@.take(i as int)));
        assert(tos@.take(j as int) =~= tos@);
        assert(next.last() == moves@[i as int]@);
        i = i + 1;
    }
    assert(moves@.take(i as int) =~= moves@);
    out
}

impl Board {
    pub proof fn lemma_dests_empty(self, s: int, p: Piece, n: nat)
        requires
            n <= p.offsets().len(),
        ensures
            forall|k: int|
                0 <= k < self.steps_upto(s, p, n).len() ==> self.empty_at(
                    #[trigger] self.steps_upto(s, p, n)[k] as int,
                ),
            forall|k: int|
                0 <= k < self.jumps_upto(s, p, n).len() ==> self.empty_at(
                    #[trigger] self.jumps_upto(s, p, n)[k] as int,
                ),
        decreases n,
    {
        if n > 0 {
            let m = (n - 1) as nat;
            self.lemma_dests_empty(s, p, m);
            let o = p.offsets()[m as int];
            let steps = self.steps_upto(s, p, n);
            let prev = self.steps_upto(s, p, m);
            assert forall|k: int| 0 <= k < steps.len() implies self.empty_at(
                #[trigger] steps[k] as int,
            ) by {
                if k < prev.len() {
                    assert(steps[k] == prev[k]);
                } else {
                    assert(((s + o) as u8) as int == s + o);
                }
            }
            let jumps = self.jumps_upto(s, p, n);
            let jprev = self.jumps_upto(s, p, m);
            assert forall|k: int| 0 <= k < jumps.len() implies self.empty_at(
                #[trigger] jumps[k] as int,
            ) by {
                if k < jprev.len() {
                    assert(jumps[k] == jprev[k]);
                } else {
                    assert(((s + 2 * o) as u8) as int == s + 2 * o);
                }
            }
        }
    }

    /// Each entry of `jumpers_upto` is a piece of `color` below `n` with its jumps, which
    /// are not empty; each entry of `steppers_upto` is a piece of `color` below `n` that
    /// cannot jump, with its steps, which are not empty.
    pub proof fn lemma_entries(self, color: PieceColor, n: nat)
        requires
            n <= 64,
        ensures
            forall|k: int|
                0 <= k < self.jumpers_upto(color, n).len() ==> {
                    let e = #[trigger] self.jumpers_upto(color, n)[k];
                    &&& e.0 < n
                    &&& self.piece_at(e.0 as int) matches Some(p) && p.color == color && e.1
                        == self.jump_dests(e.0 as int, p) && e.1.len() > 0
                },
            forall|k: int|
                0 <= k < self.steppers_upto(color, n).len() ==> {
                    let e = #[trigger] self.steppers_upto(color, n)[k];
                    &&& e.0 < n
                    &&& self.piece_at(e.0 as int) matches Some(p) && p.color == color
                        && self.jump_dests(e.0 as int, p).len() == 0 && e.1 == self.step_dests(
                        e.0 as int,
                        p,
                    ) && e.1.len() > 0
                },
        decreases n,
    {
        if n > 0 {
            self.lemma_entries(color, (n - 1) as nat);
        }
    }

    /// `jumpers_upto` is empty exactly when no piece of `color` below `n` can jump.
    pub proof fn lemma_jumpers_empty(self, color: PieceColor, n: nat)
        requires
            n <= 64,
        ensures
            self.jumpers_upto(color, n).len() == 0 <==> forall|s: int|
                0 <= s < n ==> !(#[trigger] self.piece_at(s) matches Some(p) && p.color == color
                    && self.jump_dests(s, p).len() > 0),
        decreases n,
    {
        if n > 0 {
            self.lemma_jumpers_empty(color, (n - 1) as nat);
            if self.jumpers_upto(color, n).len() == 0 {
                assert forall|s: int| 0 <= s < n implies !(#[trigger] self.piece_at(s) matches Some(
                    p,
                ) && p.color == color && self.jump_dests(s, p).len() > 0) by {
                    if s < n - 1 {
                        assert(self.jumpers_upto(color, (n - 1) as nat).len() == 0);
                    }
                }
            }
        }
    }

    /// A side with no pieces has nothing to move.
    pub proof fn lemma_no_pieces_no_moves(self, color: PieceColor, n: nat)
        requires
            n <= 64,
            self.side(color) == 0,
        ensures
            self.jumpers_upto(color, n).len() == 0,
            self.steppers_upto(color, n).len() == 0,
        decreases n,
    {
        crate::bits::lemma_and_or_not(0, 0);
        if n > 0 {
            self.lemma_no_pieces_no_moves(color, (n - 1) as nat);
            let s = n - 1;
            assert(!bit(self.side(color), s as u64));
        }
    }

    /// Every move of the legal move set of `color` is a move of a piece of `color` onto an
    /// empty square, which the board can take.
    pub proof fn lemma_legal_moves_ok(self, color: PieceColor)
        ensures
            forall|k: int|
                0 <= k < flatten(self.legal_moves(color)).len() ==> {
                    let m = #[trigger] flatten(self.legal_moves(color))[k];
                    &&& self.move_ok(m.0, m.1)
                    &&& self.piece_at(m.0 as int) matches Some(p) && p.color == color
                },
    {
        let ms = self.legal_moves(color);
        lemma_flatten_members(ms);
        self.lemma_entries(color, 64);
        assert forall|k: int| 0 <= k < flatten(ms).len() implies {
            let m = #[trigger] flatten(ms)[k];
            &&& self.move_ok(m.0, m.1)
            &&& self.piece_at(m.0 as int) matches Some(p) && p.color == color
        } by {
            let m = flatten(ms)[k];
            let j = choose|j: int| 0 <= j < ms.len() && ms[j].0 == m.0 && ms[j].1.contains(m.1);
            let p = self.piece_at(m.0 as int).unwrap();
            let d = choose|d: int| 0 <= d < ms[j].1.len() && ms[j].1[d] == m.1;
            self.lemma_dests_empty(m.0 as int, p, p.offsets().len());
            assert(self.empty_at(ms[j].1[d] as int));
        }
    }
}

/// Mandatory capture: when some piece of `color` can jump, every entry of the legal move
/// set of `color` is a piece that can jump, with exactly its jumps; no piece that can only
/// step is offered.
pub proof fn lemma_forced_capture(b: Board, color: PieceColor, s: int)
    requires
        0 <= s < 64,
        b.piece_at(s) matches Some(p) && p.color == color && b.jump_dests(s, p).len() > 0,
    ensures
        forall|k: int|
            0 <= k < b.legal_moves(color).len() ==> {
                let e = #[trigger] b.legal_moves(color)[k];
                &&& b.piece_at(e.0 as int) matches Some(q) && q.color == color && e.1
                    == b.jump_dests(e.0 as int, q) && e.1.len() > 0
            },
{
    b.lemma_jumpers_empty(color, 64);
    b.lemma_entries(color, 64);
}

/// Every legal move of a well-formed board can be taken back: undoing it restores the
/// board bit for bit.
pub proof fn lemma_legal_move_undone(b: Board, color: PieceColor, k: int)
    requires
        b.wf(),
        0 <= k < flatten(b.legal_moves(color)).len(),
    ensures
        ({
            let m = flatten(b.legal_moves(color))[k];
            b.applied(m.0, m.1).wf() && b.applied(m.0, m.1).undone(b.record(m.0, m.1)) == b
        }),
{
    b.lemma_legal_moves_ok(color);
    let m = flatten(b.legal_moves(color))[k];
    crate::moves::lemma_undo_applied(b, m.0, m.1);
}

/// A side without pieces has an empty legal move set.
pub proof fn lemma_no_pieces(b: Board, color: PieceColor)
    requires
        b.side(color) == 0,
    ensures
        b.legal_moves(color).len() == 0,
{
    b.lemma_no_pieces_no_moves(color, 64);
}

} // verus!
