use std::str::FromStr;

use chess::Board;
use chess_search::move_ordering::{
    guarded_by_pawn, holds_piece, order_moves, score_move, HASH_MOVE_SCORE,
};
use chess_search::position::{Move, PieceKind, Side};
use chess_search::searcher::EvalType;
use chess_search::table::TranspositionTable;

fn board(fen: &str) -> Board {
    Board::from_str(fen).expect("a valid position")
}

fn quiet(source: u8, dest: u8) -> Move {
    Move { source, dest, promotion: None }
}

fn generated(position: &Board) -> Vec<Move> {
    chess::MoveGen::new_legal(position)
        .map(|mv| Move {
            source: mv.get_source().to_int(),
            dest: mv.get_dest().to_int(),
            promotion: None,
        })
        .collect()
}

#[test]
fn holds_piece_reads_the_board() {
    let start = Board::default();
    assert!(holds_piece(&start, 4, PieceKind::King, Side::White));
    assert!(holds_piece(&start, 59, PieceKind::Queen, Side::Black));
    assert!(!holds_piece(&start, 59, PieceKind::Queen, Side::White));
    assert!(!holds_piece(&start, 59, PieceKind::King, Side::Black));
    assert!(!holds_piece(&start, 28, PieceKind::Pawn, Side::White));
}

#[test]
fn pawn_guard_looks_at_the_two_squares_behind() {
    // Black pawns on c6 and h7; White to move.
    let position = board("4k3/7p/2p5/8/8/8/8/4K3 w - - 0 1");
    assert!(guarded_by_pawn(&position, 33)); // b5
    assert!(guarded_by_pawn(&position, 35)); // d5
    assert!(!guarded_by_pawn(&position, 34)); // c5
    assert!(guarded_by_pawn(&position, 46)); // g6
    assert!(!guarded_by_pawn(&position, 48)); // a7: the pawn on h7 does not reach around the edge
    assert!(!guarded_by_pawn(&position, 41)); // b6
    // White pawns guard the other way; Black to move.
    let black = board("4k3/8/8/8/8/2P5/7P/4K3 b - - 0 1");
    assert!(guarded_by_pawn(&black, 25)); // b4
    assert!(guarded_by_pawn(&black, 27)); // d4
    assert!(guarded_by_pawn(&black, 22)); // g3
    assert!(!guarded_by_pawn(&black, 23)); // h3
    assert!(!guarded_by_pawn(&black, 24)); // a4: the pawn on h2 does not reach around the edge
    assert!(!guarded_by_pawn(&black, 9)); // b2
}

#[test]
fn capture_scores() {
    // White to move: the queen on d5 is guarded by the pawn on c6, the rook on h5 is not.
    let position = board("4k3/8/2p5/3q3r/4P1P1/8/8/4K3 w - - 0 1");
    assert_eq!(score_move(&position, None, quiet(28, 35)), 10 * 900 - 350);
    assert_eq!(score_move(&position, None, quiet(30, 39)), 10 * 500);
    assert_eq!(score_move(&position, None, quiet(28, 36)), 0);
    assert_eq!(score_move(&position, None, quiet(4, 5)), 0);
    assert_eq!(score_move(&position, Some(quiet(4, 5)), quiet(4, 5)), HASH_MOVE_SCORE);
    assert_eq!(score_move(&position, Some(quiet(4, 5)), quiet(28, 35)), 10 * 900 - 350);
    // A move onto a piece of one's own is no capture, nor is a square off the board.
    assert_eq!(score_move(&position, None, quiet(4, 28)), 0);
    assert_eq!(score_move(&position, None, quiet(4, 64)), 0);
}

#[test]
fn captures_come_first_by_value() {
    let position = board("4k3/8/2p5/3q3r/4P1P1/8/8/4K3 w - - 0 1");
    let table = TranspositionTable::new(1024);
    let moves = generated(&position);
    let ordered = order_moves(&position, &table, moves.clone(), true);
    assert_eq!(ordered.len(), moves.len());
    assert_eq!(ordered[0], quiet(28, 35));
    assert_eq!(ordered[1], quiet(30, 39));
    // The other moves keep the order in which they were generated.
    let rest: Vec<Move> = moves
        .iter()
        .copied()
        .filter(|mv| *mv != quiet(28, 35) && *mv != quiet(30, 39))
        .collect();
    assert_eq!(&ordered[2..], &rest[..]);
}

#[test]
fn remembered_move_comes_first() {
    let position = board("4k3/8/2p5/3q3r/4P1P1/8/8/4K3 w - - 0 1");
    let mut table = TranspositionTable::new(1024);
    table.store(position.get_hash(), 0, Some(quiet(4, 5)), 1, EvalType::Exact);
    let moves = generated(&position);
    let ordered = order_moves(&position, &table, moves.clone(), true);
    assert_eq!(ordered[0], quiet(4, 5));
    assert_eq!(ordered[1], quiet(28, 35));
    assert_eq!(ordered[2], quiet(30, 39));
    assert_eq!(ordered.len(), moves.len());
    // Without the table the captures lead.
    let plain = order_moves(&position, &table, moves, false);
    assert_eq!(plain[0], quiet(28, 35));
}

#[test]
fn remembered_move_that_is_not_there_changes_nothing() {
    let position = board("4k3/8/2p5/3q3r/4P1P1/8/8/4K3 w - - 0 1");
    let mut table = TranspositionTable::new(1024);
    table.store(position.get_hash(), 0, Some(quiet(0, 1)), 1, EvalType::Exact);
    let moves = generated(&position);
    let with_table = order_moves(&position, &table, moves.clone(), true);
    let without = order_moves(&position, &table, moves, false);
    assert_eq!(with_table, without);
}

#[test]
fn quiet_position_keeps_the_generated_order() {
    let start = Board::default();
    let table = TranspositionTable::new(1024);
    let moves = generated(&start);
    assert_eq!(moves.len(), 20);
    assert_eq!(order_moves(&start, &table, moves.clone(), true), moves);
}

#[test]
fn no_moves_give_no_moves() {
    let start = Board::default();
    let table = TranspositionTable::new(1024);
    assert_eq!(order_moves(&start, &table, Vec::new(), true), Vec::new());
}

#[test]
fn taking_in_passing_is_ordered_as_a_capture() {
    let position = board("4k3/8/8/3pP3/8/8/8/4K3 w - d6 0 1");
    // The pawn taken is worth 100; no pawn guards d6.
    assert_eq!(score_move(&position, None, quiet(36, 43)), 10 * 100);
    assert_eq!(score_move(&position, None, quiet(36, 44)), 0);
    let table = TranspositionTable::new(1024);
    let moves = generated(&position);
    let ordered = order_moves(&position, &table, moves.clone(), true);
    assert_eq!(ordered[0], quiet(36, 43));
    assert_eq!(ordered.len(), moves.len());
    // With a black pawn on c7 the square d6 is guarded.
    let guarded = board("4k3/2p5/8/3pP3/8/8/8/4K3 w - d6 0 1");
    assert_eq!(score_move(&guarded, None, quiet(36, 43)), 10 * 100 - 350);
}
