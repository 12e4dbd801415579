use std::str::FromStr;

use chess::{Board, BoardStatus, ChessMove, MoveGen, Piece};
use chess_search::evaluation::evaluate;
use chess_search::searcher::{
    Searcher, IMMEDIATE_MATE_SCORE, MAX_CAPTURE_DEPTH, NEG_INF, POS_INF,
};

const TABLE_BYTES: usize = 1 << 20;

fn board(fen: &str) -> Board {
    Board::from_str(fen).expect("a valid position")
}

/// Does the move take a piece: one on the square it ends on, or a pawn in passing?
fn takes(position: &Board, mv: ChessMove) -> bool {
    match position.color_on(mv.get_dest()) {
        Some(owner) => owner != position.side_to_move(),
        None => {
            position.piece_on(mv.get_source()) == Some(Piece::Pawn)
                && mv.get_source().get_file() != mv.get_dest().get_file()
        }
    }
}

/// The value of the tree of captures, without any pruning.
fn plain_capture_value(position: &Board, budget: u8) -> i32 {
    let mut best = evaluate(position);
    if budget == 0 {
        return best;
    }
    for mv in MoveGen::new_legal(position) {
        if takes(position, mv) {
            let worth = -plain_capture_value(&position.make_move_new(mv), budget - 1);
            if worth > best {
                best = worth;
            }
        }
    }
    best
}

/// The value of the tree of all moves, without pruning or table.
fn plain_value(position: &Board, depth: u8, ply: i32, quiescence: bool) -> i32 {
    let status = position.status();
    if ply > 0 && status == BoardStatus::Stalemate {
        return 0;
    }
    if depth == 0 {
        return if quiescence {
            plain_capture_value(position, MAX_CAPTURE_DEPTH)
        } else {
            evaluate(position)
        };
    }
    if status == BoardStatus::Checkmate {
        return -(IMMEDIATE_MATE_SCORE - ply);
    }
    if status == BoardStatus::Stalemate {
        return 0;
    }
    let mut best = i32::MIN;
    for mv in MoveGen::new_legal(position) {
        let worth = -plain_value(&position.make_move_new(mv), depth - 1, ply + 1, quiescence);
        if worth > best {
            best = worth;
        }
    }
    best
}

fn clamp(value: i32, alpha: i32, beta: i32) -> i32 {
    if value <= alpha {
        alpha
    } else if value >= beta {
        beta
    } else {
        value
    }
}

fn searched(position: &Board, depth: u8, quiescence: bool) -> i32 {
    let mut searcher = Searcher::new(*position, quiescence, TABLE_BYTES).unwrap();
    searcher.search_moves(depth, 0, NEG_INF, POS_INF)
}

#[test]
fn quiescence_equals_plain_capture_value() {
    let positions = [
        "4k3/8/8/3q4/4P3/8/8/Q5K1 w - - 0 1",
        "r1bqkb1r/pppp1ppp/2n2n2/4p2Q/2B1P3/8/PPPP1PPP/RNB1K1NR w KQkq - 0 1",
        "r1bqk2r/pppp1ppp/2n2n2/2b1p3/2B1P3/3P1N2/PPP2PPP/RNBQK2R b KQkq - 0 1",
        "4k3/8/2p5/3q3r/4P1P1/8/8/4K3 w - - 0 1",
        "4k3/8/8/3pP3/8/8/8/4K3 w - d6 0 1",
        "rnbqkbnr/ppp1pppp/8/8/3pP3/8/PPPP1PPP/RNBQKBNR b KQkq e3 0 1",
    ];
    for fen in positions {
        let position = board(fen);
        let plain = plain_capture_value(&position, MAX_CAPTURE_DEPTH);
        let mut searcher = Searcher::new(position, true, TABLE_BYTES).unwrap();
        assert_eq!(searcher.search_captures(MAX_CAPTURE_DEPTH, NEG_INF, POS_INF), plain);
        assert_eq!(
            searcher.search_captures(MAX_CAPTURE_DEPTH, plain - 30, plain + 30),
            plain
        );
        assert_eq!(
            searcher.search_captures(MAX_CAPTURE_DEPTH, plain + 10, plain + 30),
            clamp(plain, plain + 10, plain + 30)
        );
        assert_eq!(
            searcher.search_captures(MAX_CAPTURE_DEPTH, plain - 30, plain - 10),
            clamp(plain, plain - 30, plain - 10)
        );
        assert_eq!(searcher.search_captures(2, NEG_INF, POS_INF), plain_capture_value(&position, 2));
    }
}

#[test]
fn queen_takes_back_in_the_capture_tree() {
    // The white queen can take the pawn on d5, and the black queen then takes her.
    let position = board("3qk3/8/8/3p4/8/8/8/3QK3 w - - 0 1");
    let mut searcher = Searcher::new(position, true, TABLE_BYTES).unwrap();
    // Standing pat is better than losing the queen for a pawn.
    assert_eq!(
        searcher.search_captures(MAX_CAPTURE_DEPTH, NEG_INF, POS_INF),
        evaluate(&position)
    );
    // With one capture only, the pawn is won.
    let after = board("3qk3/8/8/3Q4/8/8/8/4K3 b - - 0 1");
    assert_eq!(searcher.search_captures(1, NEG_INF, POS_INF), -evaluate(&after));
}

#[test]
fn pruned_search_equals_plain_search_from_the_start() {
    let start = Board::default();
    for depth in 1..=2 {
        assert_eq!(searched(&start, depth, true), plain_value(&start, depth, 0, true));
        assert_eq!(searched(&start, depth, false), plain_value(&start, depth, 0, false));
    }
}

#[test]
fn pruned_search_equals_plain_search_three_plies_deep() {
    let start = Board::default();
    assert_eq!(searched(&start, 3, false), plain_value(&start, 3, 0, false));
}

#[test]
fn pruned_search_equals_plain_search_in_a_middlegame() {
    let position =
        board("r1bqk2r/pppp1ppp/2n2n2/2b1p3/2B1P3/3P1N2/PPP2PPP/RNBQK2R b KQkq - 0 1");
    assert_eq!(searched(&position, 1, false), plain_value(&position, 1, 0, false));
    assert_eq!(searched(&position, 2, false), plain_value(&position, 2, 0, false));
}

#[test]
fn pruned_search_equals_plain_search_in_endgames() {
    let positions = [
        "k7/8/2K5/8/8/8/8/7R w - - 0 1",
        "8/8/8/4k3/8/8/4P3/4K3 w - - 0 1",
        "6k1/4P2p/6pK/8/8/8/8/8 w - - 0 1",
        "7k/5Q2/6K1/8/8/8/8/8 b - - 0 1",
        "8/5k2/8/8/8/2K5/1p6/8 b - - 0 1",
    ];
    for fen in positions {
        let position = board(fen);
        for depth in 1..=3 {
            assert_eq!(searched(&position, depth, true), plain_value(&position, depth, 0, true));
        }
    }
}
