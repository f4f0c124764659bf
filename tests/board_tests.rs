use checkers::eval::{v1, v2};
use checkers::board::{Board, Piece, BLACK, KING, MAN, WHITE};
use checkers::movegen::PossibleMoves;
use checkers::player::chess_to_checkers_id;

fn sq(s: u8) -> u64 {
    1u64 << s
}

fn as_pairs(moves: &[PossibleMoves]) -> Vec<(u8, Vec<u8>)> {
    moves.iter().map(|m| (m.from, m.to.clone())).collect()
}

fn all_moves(moves: &[PossibleMoves]) -> Vec<(u8, u8)> {
    let mut out = Vec::new();
    for m in moves {
        for t in &m.to {
            out.push((m.from, *t));
        }
    }
    out
}

fn well_formed(b: &Board) -> bool {
    b.white & b.black == 0 && b.kings & !(b.white | b.black) == 0
}

#[test]
fn starting_position_counts() {
    let b = Board::new();
    assert_eq!(b.white_count(), 12);
    assert_eq!(b.black_count(), 12);
    assert_eq!(b.white_king_count(), 0);
    assert_eq!(b.black_king_count(), 0);
    assert!(well_formed(&b));
    assert_eq!(b.get_piece(0), Some(Piece { color: WHITE, piece_type: MAN }));
    assert_eq!(b.get_piece(63), Some(Piece { color: BLACK, piece_type: MAN }));
    assert_eq!(b.get_piece(27), None);
    assert_eq!(b.get_piece_by_coords(2, 2), Some(Piece { color: WHITE, piece_type: MAN }));
    assert!(b.occupied(9));
    assert!(!b.occupied(8));
}

#[test]
fn coordinates_and_masks() {
    assert_eq!(Board::coords_to_bitboard(1, 1), 512);
    assert_eq!(Board::get_id_from_coords(7, 7), 63);
    let b = Board::new();
    assert_eq!(b.get_white_black(), b.white | b.black);
    assert_eq!(chess_to_checkers_id(&9), 4);
    assert_eq!(chess_to_checkers_id(&63), 31);
}

#[test]
fn king_counts() {
    let b = Board { white: sq(0) | sq(2), black: sq(63), kings: sq(2) | sq(63) };
    assert_eq!(b.white_count(), 2);
    assert_eq!(b.white_king_count(), 1);
    assert_eq!(b.black_king_count(), 1);
    assert_eq!(b.get_piece(2), Some(Piece { color: WHITE, piece_type: KING }));
}

#[test]
fn starting_moves_of_white() {
    let b = Board::new();
    let moves = b.possible_moves(WHITE);
    assert_eq!(
        as_pairs(&moves),
        vec![(16, vec![25]), (18, vec![25, 27]), (20, vec![27, 29]), (22, vec![29, 31])]
    );
}

#[test]
fn starting_moves_of_black() {
    let b = Board::new();
    let moves = b.possible_moves(BLACK);
    assert_eq!(
        as_pairs(&moves),
        vec![(41, vec![34, 32]), (43, vec![36, 34]), (45, vec![38, 36]), (47, vec![38])]
    );
}

#[test]
fn reachable_squares_of_pieces() {
    assert_eq!(Piece { color: WHITE, piece_type: MAN }.get_reachable_squares(), vec![7, 9]);
    assert_eq!(Piece { color: BLACK, piece_type: MAN }.get_reachable_squares(), vec![-7, -9]);
    assert_eq!(
        Piece { color: WHITE, piece_type: KING }.get_reachable_squares(),
        vec![7, 9, -9, -7]
    );
}

#[test]
fn mandatory_jump_on_playable_squares() {
    // A white man on 18 with a black man on 27 and 36 empty must jump 18 -> 36.
    let b = Board { white: sq(18), black: sq(27), kings: 0 };
    let moves = b.possible_moves(WHITE);
    assert_eq!(as_pairs(&moves), vec![(18, vec![36])]);
    let mut after = b;
    let info = after.move_piece(18, 36);
    assert!(info.is_capture());
    assert_eq!(info.jumped_piece_id, Some(27));
    assert_eq!(info.jumped_piece, Some(Piece { color: BLACK, piece_type: MAN }));
    assert_eq!(after.black, 0);
}

#[test]
fn jumps_exclude_step_only_pieces() {
    // The man on 0 could step to 9, but the man on 18 can jump, so only the jump is offered.
    let b = Board { white: sq(0) | sq(18), black: sq(27), kings: 0 };
    let moves = b.possible_moves(WHITE);
    assert_eq!(as_pairs(&moves), vec![(18, vec![36])]);
    let no_jump = Board { white: sq(0) | sq(18), black: sq(45), kings: 0 };
    assert_eq!(as_pairs(&no_jump.possible_moves(WHITE)), vec![(0, vec![9]), (18, vec![25, 27])]);
}

#[test]
fn king_moves_backwards() {
    let b = Board { white: sq(27), black: 0, kings: sq(27) };
    assert_eq!(as_pairs(&b.possible_moves(WHITE)), vec![(27, vec![34, 36, 18, 20])]);
}

#[test]
fn continuation_after_capture() {
    let b = Board { white: sq(18) | sq(0), black: sq(27) | sq(45), kings: 0 };
    let mut after = b;
    let info = after.move_piece(18, 36);
    assert!(info.is_capture());
    assert_eq!(after.possible_jumps_from(36), Some(vec![54]));
    assert_eq!(after.possible_jumps_from(0), Some(vec![]));
    assert_eq!(after.possible_jumps_from(8), None);
}

#[test]
fn empty_side_has_no_moves() {
    let b = Board { white: 0, black: sq(41), kings: 0 };
    assert!(b.possible_moves(WHITE).is_empty());
    assert_eq!(b.white_count(), 0);
}

#[test]
fn promotion_and_undo() {
    let b = Board { white: sq(54), black: sq(9), kings: 0 };
    let mut after = b;
    let info = after.move_piece(54, 63);
    assert!(info.crowned);
    assert_eq!(after.get_piece(63), Some(Piece { color: WHITE, piece_type: KING }));
    after.undo_move(info);
    assert_eq!(after, b);
    assert_eq!(after.get_piece(54), Some(Piece { color: WHITE, piece_type: MAN }));

    let black = Board { white: sq(54), black: sq(9), kings: 0 };
    let mut after = black;
    let info = after.move_piece(9, 0);
    assert!(info.crowned);
    assert_eq!(after.get_piece(0), Some(Piece { color: BLACK, piece_type: KING }));
}

#[test]
fn king_on_far_row_is_not_uncrowned() {
    let b = Board { white: sq(54), black: 0, kings: sq(54) };
    let mut after = b;
    let info = after.move_piece(54, 63);
    assert!(!info.crowned);
    after.undo_move(info);
    assert_eq!(after, b);
    assert_eq!(after.get_piece(54), Some(Piece { color: WHITE, piece_type: KING }));
}

#[test]
fn undo_restores_every_legal_move() {
    let mut positions = vec![Board::new()];
    let mut b = Board::new();
    for (from, to) in [(18u8, 27u8), (41, 34), (16, 25), (34, 16)] {
        b.move_piece(from, to);
        positions.push(b);
    }
    positions.push(Board { white: sq(18) | sq(0), black: sq(27) | sq(45), kings: sq(45) });
    for p in positions {
        assert!(well_formed(&p));
        for color in [WHITE, BLACK] {
            for (from, to) in all_moves(&p.possible_moves(color)) {
                let mut q = p;
                let info = q.move_piece(from, to);
                assert!(well_formed(&q));
                q.undo_move(info);
                assert_eq!(q, p);
            }
        }
    }
}

#[test]
fn remove_and_king_piece() {
    let mut b = Board::new();
    b.remove_piece(0);
    assert_eq!(b.white_count(), 11);
    b.king_piece(2);
    assert_eq!(b.white_king_count(), 1);
}

#[test]
fn material_scores() {
    let b = Board::new();
    assert_eq!(b.eval_v1(WHITE), 0);
    let b = Board { white: sq(0) | sq(2), black: sq(63), kings: sq(2) };
    assert_eq!(b.eval_v1(WHITE), 2);
    assert_eq!(b.eval_v1(BLACK), -2);
}

#[test]
fn positional_scores() {
    assert_eq!(Board::new().eval_v2(WHITE), 0);
    let b = Board { white: sq(27), black: 0, kings: sq(27) };
    assert_eq!(b.eval_v2(WHITE), 46);
    let b = Board { white: sq(0), black: 0, kings: sq(0) };
    assert_eq!(b.eval_v2(WHITE), 34);
    let b = Board { white: sq(18), black: sq(41), kings: 0 };
    assert_eq!(b.eval_v2(WHITE), 6 - 6);
    let b = Board { white: sq(18), black: sq(9), kings: 0 };
    assert_eq!(b.eval_v2(WHITE), 6 - 14);
    assert_eq!(b.eval_v2(BLACK), 14 - 6);
}

#[test]
fn free_evaluators_match_methods() {
    let b = Board { white: sq(18) | sq(27), black: sq(9), kings: sq(27) };
    assert_eq!(v1(&b, WHITE), 3 - 1);
    assert_eq!(v2(&b, WHITE), 6 + 46 - 14);
    assert_eq!(v1(&b, WHITE), b.eval_v1(WHITE));
    assert_eq!(v2(&b, BLACK), b.eval_v2(BLACK));
}
