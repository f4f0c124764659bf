use vstd::prelude::*;

use crate::board::{Board, PieceColor, BLACK, WHITE};
use crate::eval::{evaluation, lemma_evaluation_bound, material, Evaluator};
use crate::movegen::{flatten, flatten_moves, lemma_no_pieces, moves_view, PossibleMoves};
use crate::moves::lemma_undo_applied;
use crate::table::TranspositionTable;

verus! {

/// The value of a won position per remaining ply of depth. It exceeds the magnitude of
/// every score of either evaluator (at most 128 for material, 2944 for positional), so a
/// forced win or loss always outranks a heuristic score.
pub const WIN_BASE: i64 = 3200;

/// The search depth: a fixed number of plies, or one that grows as pieces leave the board.
#[derive(Clone, Copy, Debug, PartialEq, Eq, Structural)]
pub enum Depth {
    Static(u8),
    Dynamic,
}

/// The depth of the dynamic policy for a board holding `pieces` pieces in all: fewer
/// pieces, fewer moves per ply, deeper search.
pub open spec fn dynamic_depth(pieces: int) -> u8 {
    if pieces < 8 {
        11
    } else if pieces < 15 {
        8
    } else if pieces < 20 {
        7
    } else {
        6
    }
}

/// The depth that `d` gives on `b`.
pub open spec fn depth_on(d: Depth, b: Board) -> u8 {
    match d {
        Depth::Static(n) => n,
        Depth::Dynamic => dynamic_depth((b.pieces_of(WHITE) + b.pieces_of(BLACK)) as int),
    }
}

/// The sentinel for a side left without moves at `depth` plies to go.
pub open spec fn win_value(depth: nat) -> i64 {
    (WIN_BASE * depth) as i64
}

/// The search value of `b` with `depth` plies to go, and the table after the search, when
/// the search starts from table `tt`, for the side `root` scored by `e`. `maximizing` says
/// whether `root` is to move. A position in the table gets its cached value whatever the
/// depth; at depth 0 the position is scored; a side to move with an empty legal move set has
/// lost, worth `win_value(depth)` to the winner; otherwise the moves are scanned in order
/// and the value is stored before it is returned.
pub open spec fn node_value(
    tt: Map<Board, i64>,
    b: Board,
    depth: nat,
    maximizing: bool,
    alpha: i64,
    beta: i64,
    root: PieceColor,
    e: Evaluator,
) -> (i64, Map<Board, i64>)
    decreases depth, 1nat, 0nat,
{
    if tt.contains_key(b) {
        (tt[b], tt)
    } else if depth == 0 {
        (evaluation(e, b, root) as i64, tt)
    } else {
        let side = if maximizing {
            root
        } else {
            !root
        };
        let moves = flatten(b.legal_moves(side));
        let w = win_value(depth);
        let worst: i64 = if maximizing {
            (-w) as i64
        } else {
            w
        };
        if moves.len() == 0 {
            (worst, tt)
        } else {
            let r = scan_moves(tt, b, moves, 0, depth, maximizing, alpha, beta, worst, root, e);
            (r.0, r.1.insert(b, r.0))
        }
    }
}

/// The alpha-beta scan of the moves of `b` from the `i`-th on: each move is applied and
/// searched one ply deeper, by the same side after a capture and by the other side
/// otherwise; the best value so far is kept (the largest when `maximizing`, else the
/// smallest), `alpha` or `beta` follows it, and the scan stops once `beta <= alpha`.
pub open spec fn scan_moves(
    tt: Map<Board, i64>,
    b: Board,
    moves: Seq<(u8, u8)>,
    i: nat,
    depth: nat,
    maximizing: bool,
    alpha: i64,
    beta: i64,
    best: i64,
    root: PieceColor,
    e: Evaluator,
) -> (i64, Map<Board, i64>)
    decreases depth, 0nat, moves.len() - i,
{
    if depth == 0 || i >= moves.len() {
        (best, tt)
    } else {
        let m = moves[i as int];
        let next_max = if b.captures(m.0, m.1) {
            maximizing
        } else {
            !maximizing
        };
        let r = node_value(
            tt,
            b.applied(m.0, m.1),
            (depth - 1) as nat,
            next_max,
            alpha,
            beta,
            root,
            e,
        );
        let v = r.0;
        let best1 = if maximizing {
            if v > best {
                v
            } else {
                best
            }
        } else {
            if v < best {
                v
            } else {
                best
            }
        };
        let alpha1 = if maximizing && v > alpha {
            v
        } else {
            alpha
        };
        let beta1 = if !maximizing && v < beta {
            v
        } else {
            beta
        };
        if beta1 <= alpha1 {
            (best1, r.1)
        } else {
            scan_moves(r.1, b, moves, i + 1, depth, maximizing, alpha1, beta1, best1, root, e)
        }
    }
}

/// The depth at which the root's moves are searched.
pub open spec fn child_depth(depth: nat) -> nat {
    if depth > 0 {
        (depth - 1) as nat
    } else {
        0
    }
}

/// The values of the root's moves from the `i`-th on, each paired with its move, in scan
/// order: each move is applied and searched as a node where the opponent is to move, with
/// the table that the searches of the earlier moves left.
pub open spec fn root_values(
    tt: Map<Board, i64>,
    b: Board,
    moves: Seq<(u8, u8)>,
    i: nat,
    depth: nat,
    root: PieceColor,
    e: Evaluator,
) -> Seq<((u8, u8), i64)>
    decreases moves.len() - i,
{
    if i >= moves.len() {
        seq![]
    } else {
        let m = moves[i as int];
        let w = win_value(depth);
        let r = node_value(tt, b.applied(m.0, m.1), child_depth(depth), false, (-w) as i64, w, root, e);
        seq![(m, r.0)] + root_values(r.1, b, moves, i + 1, depth, root, e)
    }
}

/// The first pair of highest value: a later pair replaces the one kept only when its value
/// is strictly higher.
pub open spec fn first_best(vals: Seq<((u8, u8), i64)>) -> Option<((u8, u8), i64)>
    decreases vals.len(),
{
    if vals.len() == 0 {
        None
    } else {
        let last = vals.last();
        match first_best(vals.drop_last()) {
            Some(kept) => if last.1 > kept.1 {
                Some(last)
            } else {
                Some(kept)
            },
            None => Some(last),
        }
    }
}

/// The moves of `ms` on `b` with their values, searching `depth` plies for `root` with `e`
/// from an empty table.
pub open spec fn move_values(
    b: Board,
    ms: Seq<(u8, Seq<u8>)>,
    depth: nat,
    root: PieceColor,
    e: Evaluator,
) -> Seq<((u8, u8), i64)> {
    root_values(Map::empty(), b, flatten(ms), 0, depth, root, e)
}

/// The move chosen on `b` among the moves of `ms`: the first move of highest value in scan
/// order, or `None` when `ms` holds no move.
pub open spec fn chosen_move(
    b: Board,
    ms: Seq<(u8, Seq<u8>)>,
    depth: nat,
    root: PieceColor,
    e: Evaluator,
) -> Option<(u8, u8)> {
    match first_best(move_values(b, ms, depth, root, e)) {
        Some(kept) => Some(kept.0),
        None => None,
    }
}

/// A side with no pieces has an empty legal move set, and a search from a table that does not
/// hold the position, with that side as the root to move and at least one ply to go, scores
/// the position `-win_value(depth)`: strictly below every material score of every board.
pub proof fn lemma_no_pieces_scores_below(
    tt: Map<Board, i64>,
    b: Board,
    depth: nat,
    alpha: i64,
    beta: i64,
    root: PieceColor,
    e: Evaluator,
    q: Board,
    c: PieceColor,
)
    requires
        b.side(root) == 0,
        1 <= depth <= 255,
        !tt.contains_key(b),
    ensures
        b.legal_moves(root).len() == 0,
        node_value(tt, b, depth, true, alpha, beta, root, e).0 == -(WIN_BASE * depth),
        node_value(tt, b, depth, true, alpha, beta, root, e).0 < material(q, c),
{
    lemma_no_pieces(b, root);
    assert(flatten(b.legal_moves(root)).len() == 0);
    lemma_evaluation_bound(e, q, c);
    assert(WIN_BASE * depth <= WIN_BASE * 255) by (nonlinear_arith)
        requires
            depth <= 255,
    ;
    assert(WIN_BASE * depth >= WIN_BASE) by (nonlinear_arith)
        requires
            depth >= 1,
    ;
}

proof fn lemma_root_values(
    tt: Map<Board, i64>,
    b: Board,
    moves: Seq<(u8, u8)>,
    i: nat,
    depth: nat,
    root: PieceColor,
    e: Evaluator,
)
    requires
        i <= moves.len(),
    ensures
        root_values(tt, b, moves, i, depth, root, e).len() == moves.len() - i,
        forall|j: int|
            0 <= j < moves.len() - i ==> (#[trigger] root_values(tt, b, moves, i, depth, root, e)[j]).0
                == moves[i + j],
    decreases moves.len() - i,
{
    if i < moves.len() {
        let m = moves[i as int];
        let w = win_value(depth);
        let r = node_value(tt, b.applied(m.0, m.1), child_depth(depth), false, (-w) as i64, w, root, e);
        lemma_root_values(r.1, b, moves, i + 1, depth, root, e);
        let rest = root_values(r.1, b, moves, i + 1, depth, root, e);
        assert forall|j: int| 0 <= j < moves.len() - i implies (#[trigger] root_values(
            tt,
            b,
            moves,
            i,
            depth,
            root,
            e,
        )[j]).0 == moves[i + j] by {
            if j > 0 {
                assert(root_values(tt, b, moves, i, depth, root, e)[j] == rest[j - 1]);
            }
        }
    }
}

proof fn lemma_first_best(vals: Seq<((u8, u8), i64)>)
    ensures
        first_best(vals).is_none() <==> vals.len() == 0,
        first_best(vals) matches Some(k) ==> vals.contains(k),
    decreases vals.len(),
{
    if vals.len() > 0 {
        lemma_first_best(vals.drop_last());
        if let Some(k) = first_best(vals.drop_last()) {
            let j = choose|j: int| 0 <= j < vals.drop_last().len() && vals.drop_last()[j] == k;
            assert(vals[j] == k);
        }
        assert(vals[vals.len() - 1] == vals.last());
    }
}

/// The chosen move is one of the moves offered, and there is none only when none is offered.
pub proof fn lemma_chosen_move(
    b: Board,
    ms: Seq<(u8, Seq<u8>)>,
    depth: nat,
    root: PieceColor,
    e: Evaluator,
)
    ensures
        chosen_move(b, ms, depth, root, e).is_none() <==> flatten(ms).len() == 0,
        chosen_move(b, ms, depth, root, e) matches Some(m) ==> flatten(ms).contains(m),
{
    let vals = move_values(b, ms, depth, root, e);
    lemma_root_values(Map::empty(), b, flatten(ms), 0, depth, root, e);
    lemma_first_best(vals);
    if let Some(k) = first_best(vals) {
        let j = choose|j: int| 0 <= j < vals.len() && vals[j] == k;
        assert(flatten(ms)[0 + j] == k.0);
    }
}

/// The first pair of highest value in `values`, or `None` when it is empty.
pub fn best_of(values: &Vec<((u8, u8), i64)>) -> (r: Option<((u8, u8), i64)>)
    ensures
        r == first_best(values@),
{
    let mut best: Option<((u8, u8), i64)> = None;
    let mut i: usize = 0;
    while i < values.len()
        invariant
            i <= values@.len(),
            best == first_best(values@.take(i as int)),
        decreases values@.len() - i,
    {
        let (m, v) = values[i];
        proof {
            assert(values@.take(i + 1).drop_last() =~= values@.take(i as int));
            assert(values@.take(i + 1).last() == values@[i as int]);
        }
        match best {
            Some((_, kept)) => {
                if v > kept {
                    best = Some((m, v));
                }
            },
            None => {
                best = Some((m, v));
            },
        }
        i = i + 1;
    }
    assert(values@.take(i as int) =~= values@);
    best
}

/// Why a player could not be made.
#[derive(Clone, Copy, Debug, PartialEq, Eq, Structural)]
pub enum SearchError {
    /// The evaluator number is neither 1 nor 2.
    InvalidEvaluatorSelector,
}

/// A player that picks its moves by depth-limited minimax with alpha-beta pruning and a
/// transposition table that is cleared before each decision.
pub struct MinimaxPlayer {
    color: PieceColor,
    depth: Depth,
    evaluator: Evaluator,
    transposition_table: TranspositionTable,
}

/// The same player under the name of its pruning.
pub type AlphaBetaPlayer = MinimaxPlayer;

impl MinimaxPlayer {
    pub closed spec fn color_spec(&self) -> PieceColor {
        self.color
    }

    pub closed spec fn depth_spec(&self) -> Depth {
        self.depth
    }

    pub closed spec fn evaluator_spec(&self) -> Evaluator {
        self.evaluator
    }

    pub closed spec fn table(&self) -> Map<Board, i64> {
        self.transposition_table@
    }

    /// A player for white searching at `depth` with evaluator number `eval_version`
    /// (`1` material, `2` positional); any other number is refused.
    pub fn new(depth: Depth, eval_version: u8) -> (r: Result<MinimaxPlayer, SearchError>)
        ensures
            eval_version == 1 || eval_version == 2 <==> r.is_ok(),
            r matches Ok(p) ==> {
                &&& p.color_spec() == WHITE
                &&& p.depth_spec() == depth
                &&& p.evaluator_spec() == if eval_version == 1 {
                    Evaluator::Material
                } else {
                    Evaluator::Positional
                }
                &&& p.table() == Map::<Board, i64>::empty()
            },
            r matches Err(err) ==> err == SearchError::InvalidEvaluatorSelector,
    {
        match Evaluator::from_id(eval_version) {
            Some(evaluator) => Ok(
                MinimaxPlayer {
                    color: WHITE,
                    depth,
                    evaluator,
                    transposition_table: TranspositionTable::new(),
                },
            ),
            None => Err(SearchError::InvalidEvaluatorSelector),
        }
    }

    /// Sets the side this player plays.
    pub fn init(&mut self, color: PieceColor)
        ensures
            final(self).color_spec() == color,
            final(self).depth_spec() == old(self).depth_spec(),
            final(self).evaluator_spec() == old(self).evaluator_spec(),
            final(self).table() == old(self).table(),
    {
        self.color = color;
    }

    pub fn get_color(&self) -> (r: PieceColor)
        ensures
            r == self.color_spec(),
    {
        self.color
    }

    /// Switches the side this player plays, and returns the new side.
    pub fn swap_color(&mut self) -> (r: PieceColor)
        ensures
            r == !old(self).color_spec(),
            final(self).color_spec() == r,
            final(self).depth_spec() == old(self).depth_spec(),
            final(self).evaluator_spec() == old(self).evaluator_spec(),
            final(self).table() == old(self).table(),
    {
        self.color = !self.color;
        self.color
    }

    pub fn clear_transposition_table(&mut self)
        ensures
            final(self).table() == Map::<Board, i64>::empty(),
            final(self).color_spec() == old(self).color_spec(),
            final(self).depth_spec() == old(self).depth_spec(),
            final(self).evaluator_spec() == old(self).evaluator_spec(),
    {
        self.transposition_table.clear();
    }

    /// The depth this player searches on `board`.
    pub fn search_depth(&self, board: &Board) -> (r: u8)
        ensures
            r == depth_on(self.depth_spec(), *board),
    {
        match self.depth {
            Depth::Static(d) => d,
            Depth::Dynamic => {
                let pc = board.black_count() as u64 + board.white_count() as u64;
                if pc < 8 {
                    11
                } else if pc < 15 {
                    8
                } else if pc < 20 {
                    7
                } else {
                    6
                }
            },
        }
    }

    fn search(&mut self, board: &mut Board, depth: u8, maximizing: bool, alpha: i64, beta: i64) -> (r: i64)
        requires
            old(board).wf(),
        ensures
            *final(board) == *old(board),
            final(self).color_spec() == old(self).color_spec(),
            final(self).depth_spec() == old(self).depth_spec(),
            final(self).evaluator_spec() == old(self).evaluator_spec(),
            (r, final(self).table()) == node_value(
                old(self).table(),
                *old(board),
                depth as nat,
                maximizing,
                alpha,
                beta,
                old(self).color_spec(),
                old(self).evaluator_spec(),
            ),
        decreases depth,
    {
        if let Some(v) = self.transposition_table.get(board) {
            return v;
        }
        if depth == 0 {
            proof {
                lemma_evaluation_bound(self.evaluator, *board, self.color);
            }
            return self.evaluator.evaluate(board, self.color);
        }
        let ghost b0 = *board;
        let ghost tt0 = self.table();
        let side = if maximizing {
            self.color
        } else {
            !self.color
        };
        let moves = flatten_moves(&board.possible_moves(side));
        let w: i64 = WIN_BASE * (depth as i64);
        let mut best: i64 = if maximizing {
            -w
        } else {
            w
        };
        if moves.len() == 0 {
            return best;
        }
        proof {
            b0.lemma_legal_moves_ok(side);
        }
        let mut alpha = alpha;
        let mut beta = beta;
        let ghost alpha0 = alpha;
        let ghost beta0 = beta;
        let ghost best0 = best;
        let mut i: usize = 0;
        while i < moves.len()
            invariant
                *board == b0,
                b0.wf(),
                depth > 0,
                i <= moves@.len(),
                moves@ == flatten(b0.legal_moves(side)),
                forall|k: int|
                    0 <= k < moves@.len() ==> b0.move_ok(#[trigger] moves@[k].0, moves@[k].1),
                self.color_spec() == old(self).color_spec(),
                self.depth_spec() == old(self).depth_spec(),
                self.evaluator_spec() == old(self).evaluator_spec(),
                scan_moves(self.table(), b0, moves@, i as nat, depth as nat, maximizing, alpha, beta, best, self.color_spec(), self.evaluator_spec())
                    == scan_moves(tt0, b0, moves@, 0, depth as nat, maximizing, alpha0, beta0, best0, self.color_spec(), self.evaluator_spec()),
            decreases moves@.len() - i,
        {
            let (from, to) = moves[i];
            assert(b0.move_ok(moves@[i as int].0, moves@[i as int].1));
            proof {
                lemma_undo_applied(b0, from, to);
            }
            let info = board.move_piece(from, to);
            let next_max = if info.is_capture() {
                maximizing
            } else {
                !maximizing
            };
            let v = self.search(board, depth - 1, next_max, alpha, beta);
            board.undo_move(info);
            if maximizing {
                if v > best {
                    best = v;
                }
                if v > alpha {
                    alpha = v;
                }
            } else {
                if v < best {
                    best = v;
                }
                if v < beta {
                    beta = v;
                }
            }
            if beta <= alpha {
                i = moves.len();
            } else {
                i = i + 1;
            }
        }
        self.transposition_table.insert(*board, best);
        best
    }

    /// The search value of `board` with this player's side to move, `depth` plies deep,
    /// from a cleared table and with the window `[-win_value(depth), win_value(depth)]`.
    pub fn score_position(&mut self, board: &Board, depth: u8) -> (r: i64)
        requires
            board.wf(),
        ensures
            r == node_value(
                Map::empty(),
                *board,
                depth as nat,
                true,
                (-win_value(depth as nat)) as i64,
                win_value(depth as nat),
                old(self).color_spec(),
                old(self).evaluator_spec(),
            ).0,
            final(self).color_spec() == old(self).color_spec(),
            final(self).depth_spec() == old(self).depth_spec(),
            final(self).evaluator_spec() == old(self).evaluator_spec(),
    {
        let w: i64 = WIN_BASE * (depth as i64);
        let mut b = *board;
        self.clear_transposition_table();
        self.search(&mut b, depth, true, -w, w)
    }

    fn root_values_of(&mut self, board: &Board, depth: u8, possible_moves: &Vec<PossibleMoves>) -> (r: Vec<((u8, u8), i64)>)
        requires
            board.wf(),
            forall|k: int|
                0 <= k < flatten(moves_view(possible_moves@)).len() ==> board.move_ok(
                    #[trigger] flatten(moves_view(possible_moves@))[k].0,
                    flatten(moves_view(possible_moves@))[k].1,
                ),
        ensures
            r@ == move_values(
                *board,
                moves_view(possible_moves@),
                depth as nat,
                old(self).color_spec(),
                old(self).evaluator_spec(),
            ),
            final(self).color_spec() == old(self).color_spec(),
            final(self).depth_spec() == old(self).depth_spec(),
            final(self).evaluator_spec() == old(self).evaluator_spec(),
    {
        let child: u8 = if depth > 0 {
            depth - 1
        } else {
            0
        };
        let w: i64 = WIN_BASE * (depth as i64);
        let moves = flatten_moves(possible_moves);
        let mut b = *board;
        self.clear_transposition_table();
        let mut out: Vec<((u8, u8), i64)> = Vec::new();
        let mut i: usize = 0;
        while i < moves.len()
            invariant
                b == *board,
                board.wf(),
                i <= moves@.len(),
                moves@ == flatten(moves_view(possible_moves@)),
                forall|k: int|
                    0 <= k < moves@.len() ==> board.move_ok(#[trigger] moves@[k].0, moves@[k].1),
                w == win_value(depth as nat),
                child as nat == child_depth(depth as nat),
                self.color_spec() == old(self).color_spec(),
                self.depth_spec() == old(self).depth_spec(),
                self.evaluator_spec() == old(self).evaluator_spec(),
                out@ + root_values(self.table(), *board, moves@, i as nat, depth as nat, self.color_spec(), self.evaluator_spec())
                    == root_values(Map::empty(), *board, moves@, 0, depth as nat, self.color_spec(), self.evaluator_spec()),
            decreases moves@.len() - i,
        {
            let (from, to) = moves[i];
            assert(board.move_ok(moves@[i as int].0, moves@[i as int].1));
            proof {
                lemma_undo_applied(*board, from, to);
            }
            let ghost before = out@;
            let ghost tt = self.table();
            let info = b.move_piece(from, to);
            let v = self.search(&mut b, child, false, -w, w);
            b.undo_move(info);
            out.push(((from, to), v));
            proof {
                let rest = root_values(self.table(), *board, moves@, (i + 1) as nat, depth as nat, self.color_spec(), self.evaluator_spec());
                assert(root_values(tt, *board, moves@, i as nat, depth as nat, self.color_spec(), self.evaluator_spec())
                    == seq![((from, to), v)] + rest);
                assert(out@ + rest =~= before + (seq![((from, to), v)] + rest));
            }
            i = i + 1;
        }
        assert(out@ =~= out@ + root_values(self.table(), *board, moves@, i as nat, depth as nat, self.color_spec(), self.evaluator_spec()));
        out
    }

    /// Every move of this player's legal move set on `board`, in scan order, with its value:
    /// after clearing the table, each move is applied and searched at one ply less with the
    /// opponent to move.
    pub fn analyse(&mut self, board: &Board) -> (r: Vec<((u8, u8), i64)>)
        requires
            board.wf(),
        ensures
            r@ == move_values(
                *board,
                board.legal_moves(old(self).color_spec()),
                depth_on(old(self).depth_spec(), *board) as nat,
                old(self).color_spec(),
                old(self).evaluator_spec(),
            ),
            final(self).color_spec() == old(self).color_spec(),
            final(self).depth_spec() == old(self).depth_spec(),
            final(self).evaluator_spec() == old(self).evaluator_spec(),
    {
        let depth = self.search_depth(board);
        let moves = board.possible_moves(self.color);
        proof {
            board.lemma_legal_moves_ok(self.color);
        }
        self.root_values_of(board, depth, &moves)
    }

    /// The move this player makes on `board` among the moves of `possible_moves`: after
    /// clearing the table, each move is applied and searched at one ply less with the
    /// opponent to move; the first move of highest value in scan order is returned, or
    /// `None` when there is no move. The result depends on the board, the moves and the
    /// player's side, depth and evaluator alone.
    pub fn get_move(&mut self, board: &Board, possible_moves: &Vec<PossibleMoves>) -> (r: Option<(u8, u8)>)
        requires
            board.wf(),
            forall|k: int|
                0 <= k < flatten(moves_view(possible_moves@)).len() ==> board.move_ok(
                    #[trigger] flatten(moves_view(possible_moves@))[k].0,
                    flatten(moves_view(possible_moves@))[k].1,
                ),
        ensures
            r == chosen_move(
                *board,
                moves_view(possible_moves@),
                depth_on(old(self).depth_spec(), *board) as nat,
                old(self).color_spec(),
                old(self).evaluator_spec(),
            ),
            final(self).color_spec() == old(self).color_spec(),
            final(self).depth_spec() == old(self).depth_spec(),
            final(self).evaluator_spec() == old(self).evaluator_spec(),
    {
        let depth = self.search_depth(board);
        let values = self.root_values_of(board, depth, possible_moves);
        let best = best_of(&values);
        match best {
            Some((m, _)) => Some(m),
            None => None,
        }
    }
}

} // verus!
