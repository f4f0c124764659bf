use vstd::prelude::*;

use std::collections::HashMap;

use crate::board::Board;

verus! {

broadcast use vstd::std_specs::hash::group_hash_axioms;

/// The key under which a board's black and king masks are kept, within the row of its
/// white mask.
pub open spec fn inner_key(black: u64, kings: u64) -> u128 {
    (black as int * 0x1_0000_0000_0000_0000 + kings as int) as u128
}

proof fn lemma_inner_key_injective(b1: u64, k1: u64, b2: u64, k2: u64)
    requires
        inner_key(b1, k1) == inner_key(b2, k2),
    ensures
        b1 == b2 && k1 == k2,
{
    let m: int = 0x1_0000_0000_0000_0000;
    assert(0 <= b1 as int * m + (k1 as int) < 0x1_0000_0000_0000_0000_0000_0000_0000_0000) by (nonlinear_arith)
        requires
            0 <= b1 < m,
            0 <= k1 < m,
            m == 0x1_0000_0000_0000_0000,
    ;
    assert(0 <= b2 as int * m + (k2 as int) < 0x1_0000_0000_0000_0000_0000_0000_0000_0000) by (nonlinear_arith)
        requires
            0 <= b2 < m,
            0 <= k2 < m,
            m == 0x1_0000_0000_0000_0000,
    ;
    assert(b1 as int * m + k1 as int == b2 as int * m + k2 as int);
    assert(b1 == b2 && k1 == k2) by (nonlinear_arith)
        requires
            b1 as int * m + k1 as int == b2 as int * m + k2 as int,
            0 <= k1 < m,
            0 <= k2 < m,
            0 <= b1,
            0 <= b2,
    ;
}

/// A cache from positions to search values.
pub struct TranspositionTable {
    rows: HashMap<u64, HashMap<u128, i64>>,
}

impl View for TranspositionTable {
    type V = Map<Board, i64>;

    closed spec fn view(&self) -> Map<Board, i64> {
        Map::new(
            |b: Board|
                self.rows@.contains_key(b.white) && self.rows@[b.white]@.contains_key(
                    inner_key(b.black, b.kings),
                ),
            |b: Board| self.rows@[b.white]@[inner_key(b.black, b.kings)],
        )
    }
}

fn key_of(board: &Board) -> (r: u128)
    ensures
        r == inner_key(board.black, board.kings),
{
    let m: u128 = 0x1_0000_0000_0000_0000;
    assert((board.black as int) * 0x1_0000_0000_0000_0000 + (board.kings as int)
        < 0x1_0000_0000_0000_0000_0000_0000_0000_0000) by (nonlinear_arith)
        requires
            board.black < 0x1_0000_0000_0000_0000,
            board.kings < 0x1_0000_0000_0000_0000,
    ;
    (board.black as u128) * m + (board.kings as u128)
}

impl TranspositionTable {
    /// An empty table.
    pub fn new() -> (r: TranspositionTable)
        ensures
            r@ == Map::<Board, i64>::empty(),
    {
        let r = TranspositionTable { rows: HashMap::new() };
        assert(r@ =~= Map::<Board, i64>::empty());
        r
    }

    /// The value kept for `board`, if any.
    pub fn get(&self, board: &Board) -> (r: Option<i64>)
        ensures
            r == (if self@.contains_key(*board) {
                Some(self@[*board])
            } else {
                None
            }),
    {
        match self.rows.get(&board.white) {
            Some(row) => match row.get(&key_of(board)) {
                Some(v) => Some(*v),
                None => None,
            },
            None => None,
        }
    }

    /// Keeps `value` for `board`, replacing any earlier value.
    pub fn insert(&mut self, board: Board, value: i64)
        ensures
            final(self)@ == old(self)@.insert(board, value),
    {
        let key = key_of(&board);
        let mut row = match self.rows.remove(&board.white) {
            Some(row) => row,
            None => HashMap::new(),
        };
        row.insert(key, value);
        self.rows.insert(board.white, row);
        proof {
            assert forall|b: Board| #[trigger]
                self@.contains_key(b) implies old(self)@.insert(board, value).contains_key(b)
                && self@[b] == old(self)@.insert(board, value)[b] by {
                if b.white == board.white && inner_key(b.black, b.kings) == key {
                    lemma_inner_key_injective(b.black, b.kings, board.black, board.kings);
                }
            }
            assert forall|b: Board| #[trigger]
                old(self)@.insert(board, value).contains_key(b) implies self@.contains_key(b) by {
                if b.white == board.white && inner_key(b.black, b.kings) == key {
                    lemma_inner_key_injective(b.black, b.kings, board.black, board.kings);
                }
            }
            assert(self@ =~= old(self)@.insert(board, value));
        }
    }

    /// Forgets every value.
    pub fn clear(&mut self)
        ensures
            final(self)@ == Map::<Board, i64>::empty(),
    {
        self.rows.clear();
        assert(self@ =~= Map::<Board, i64>::empty());
    }
}

} // verus!
