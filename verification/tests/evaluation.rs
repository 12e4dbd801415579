use std::str::FromStr;

use chess::Board;
use chess_search::evaluation::{
    count_material, count_pawns, evaluate, evaluate_tables, get_checkers, table_entry, value_of,
    EVAL_LIMIT,
};
use chess_search::position::{PieceKind, Side};

fn board(fen: &str) -> Board {
    Board::from_str(fen).expect("a valid position")
}

#[test]
fn start_position_evaluates_to_zero() {
    assert_eq!(evaluate(&Board::default()), 0);
}

#[test]
fn start_position_material_is_equal() {
    let start = Board::default();
    // 8 pawns, 2 knights, 2 bishops, 2 rooks and a queen.
    assert_eq!(count_material(Side::White, &start), 800 + 640 + 660 + 1000 + 900);
    assert_eq!(count_material(Side::Black, &start), 4000);
    assert_eq!(count_pawns(Side::White, &start), 8);
    assert_eq!(count_pawns(Side::Black, &start), 8);
}

#[test]
fn piece_values() {
    assert_eq!(value_of(PieceKind::Pawn), 100);
    assert_eq!(value_of(PieceKind::Knight), 320);
    assert_eq!(value_of(PieceKind::Bishop), 330);
    assert_eq!(value_of(PieceKind::Rook), 500);
    assert_eq!(value_of(PieceKind::Queen), 900);
    assert_eq!(value_of(PieceKind::King), 0);
}

#[test]
fn table_entries() {
    assert_eq!(table_entry(PieceKind::Pawn, 8), 50);
    assert_eq!(table_entry(PieceKind::Pawn, 35), 20);
    assert_eq!(table_entry(PieceKind::Knight, 0), -50);
    assert_eq!(table_entry(PieceKind::Bishop, 42), 10);
    assert_eq!(table_entry(PieceKind::Rook, 12), 10);
    assert_eq!(table_entry(PieceKind::Queen, 32), 0);
    assert_eq!(table_entry(PieceKind::Queen, 39), -5);
    assert_eq!(table_entry(PieceKind::King, 57), 30);
}

#[test]
fn lone_pawn_is_worth_its_value_and_its_square() {
    // White: king e1, pawn e4. Black: king e8.
    let position = board("4k3/8/8/8/4P3/8/8/4K3 w - - 0 1");
    assert_eq!(count_material(Side::White, &position), 100);
    assert_eq!(count_material(Side::Black, &position), 0);
    // The pawn on e4 reads the entry of e5, 36; the king on e1 that of e8, 60.
    assert_eq!(evaluate_tables(Side::White, &position), 20);
    assert_eq!(evaluate_tables(Side::Black, &position), 0);
    assert_eq!(evaluate(&position), 120);
}

#[test]
fn evaluation_is_from_the_mover() {
    let white = board("4k3/8/8/8/4P3/8/8/4K3 w - - 0 1");
    let black = board("4k3/8/8/8/4P3/8/8/4K3 b - - 0 1");
    assert_eq!(evaluate(&white), 120);
    assert_eq!(evaluate(&black), -120);
}

#[test]
fn colour_mirror_negates_the_evaluation() {
    // Every piece changes colour and goes to the opposite rank of its file;
    // White keeps the move.
    let position = board("4k3/8/8/8/4P3/8/8/4K3 w - - 0 1");
    let mirror = board("4k3/8/8/4p3/8/8/8/4K3 w - - 0 1");
    assert_eq!(evaluate(&position), 120);
    assert_eq!(evaluate(&mirror), -120);
}

#[test]
fn colour_mirror_of_a_middlegame_negates_the_evaluation() {
    let position = board("r1bqk2r/pppp1ppp/2n2n2/2b1p3/2B1P3/5N2/PPPP1PPP/RNBQK2R w - - 0 1");
    let mirror = board("rnbqk2r/pppp1ppp/5n2/2b1p3/2B1P3/2N2N2/PPPP1PPP/R1BQK2R w - - 0 1");
    assert_eq!(evaluate(&position), -evaluate(&mirror));
    assert_eq!(
        evaluate_tables(Side::White, &position),
        evaluate_tables(Side::Black, &mirror)
    );
    assert_eq!(
        evaluate_tables(Side::Black, &position),
        evaluate_tables(Side::White, &mirror)
    );
}

#[test]
fn colour_mirror_of_a_queen_on_the_wing() {
    // The queen's table is not the same on both wings. The white queen on
    // b3 reads the entry of b6, 41.
    let position = board("4k3/8/8/8/8/1Q6/8/4K3 w - - 0 1");
    let mirror = board("4k3/8/1q6/8/8/8/8/4K3 w - - 0 1");
    assert_eq!(evaluate_tables(Side::White, &position), 5);
    assert_eq!(evaluate_tables(Side::Black, &mirror), 5);
    assert_eq!(evaluate(&position), 905);
    assert_eq!(evaluate(&mirror), -905);
    // The white queen on a4 reads the entry of a5, 32.
    let edge = board("6k1/8/8/8/Q7/8/8/6K1 w - - 0 1");
    let edge_mirror = board("6k1/8/8/q7/8/8/8/6K1 w - - 0 1");
    assert_eq!(evaluate(&edge), 900);
    assert_eq!(evaluate(&edge_mirror), -900);
}

#[test]
fn king_table_counts_only_with_fewer_than_two_pawns() {
    // The white king on g1 reads the entry of g8, 62, of the king's table: 30.
    let one_pawn = board("4k3/8/8/8/8/8/1P6/6K1 w - - 0 1");
    let two_pawns = board("4k3/8/8/8/8/8/1PP5/6K1 w - - 0 1");
    // The pawn on b2 reads the entry of b7, 49: 10. The pawn on c2 reads 50: 10.
    assert_eq!(evaluate_tables(Side::White, &one_pawn), 30 + 10);
    assert_eq!(evaluate_tables(Side::White, &two_pawns), 10 + 10);
}

#[test]
fn check_costs_the_checked_side() {
    // The black rook on e2 checks the white king on e1.
    let position = board("4k3/8/8/8/8/8/4r3/4K3 w - - 0 1");
    assert!(get_checkers(Side::Black, &position));
    assert!(!get_checkers(Side::White, &position));
    // White: -25. Black: 500 for the rook and 10 for its square.
    assert_eq!(evaluate(&position), -25 - 510);
}

#[test]
fn no_check_in_the_start_position() {
    let start = Board::default();
    assert!(!get_checkers(Side::White, &start));
    assert!(!get_checkers(Side::Black, &start));
}

#[test]
fn evaluation_stays_within_its_limit() {
    let queens = board("QQQQQQQQ/QQQQQQQ1/8/8/8/8/8/k6K b - - 0 1");
    let score = evaluate(&queens);
    assert!(score < -13000);
    assert!(score >= -EVAL_LIMIT);
}
