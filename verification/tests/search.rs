use std::str::FromStr;

use chess::Board;
use chess_search::evaluation::evaluate;
use chess_search::position::{capture_moves, captures, count_pieces, fits_piece_limit};
use chess_search::position::is_playable;
use chess_search::position::{Move, PieceKind, Side};
use chess_search::searcher::{
    bumped, get_stored_move, EvalType, SearchStats, Searcher, IMMEDIATE_MATE_SCORE,
    MAX_CAPTURE_DEPTH, NEG_INF, POS_INF,
};
use chess_search::table::TranspositionTable;

const TABLE_BYTES: usize = 1 << 20;

fn board(fen: &str) -> Board {
    Board::from_str(fen).expect("a valid position")
}

fn quiet(source: u8, dest: u8) -> Move {
    Move { source, dest, promotion: None }
}

#[test]
fn new_searcher_has_found_nothing() {
    let searcher = Searcher::new(Board::default(), true, TABLE_BYTES).unwrap();
    assert_eq!(searcher.get_best_move(), None);
    assert_eq!(searcher.get_best_eval(), 0);
    assert_eq!(searcher.completed_depth(), 0);
    assert!(!searcher.is_aborted());
    assert_eq!(searcher.get_board(), Board::default());
    assert_eq!(
        searcher.stats(),
        SearchStats { nodes: 0, quiescence_nodes: 0, tt_hits: 0, cutoffs: 0 }
    );
}

#[test]
fn counters_stop_at_the_largest_number() {
    assert_eq!(bumped(0), 1);
    assert_eq!(bumped(41), 42);
    assert_eq!(bumped(u64::MAX - 1), u64::MAX);
    assert_eq!(bumped(u64::MAX), u64::MAX);
}

#[test]
fn mate_scores_are_those_near_the_mate_score() {
    let searcher = Searcher::new(Board::default(), true, 1024).unwrap();
    assert!(searcher.is_mate_score(100000));
    assert!(searcher.is_mate_score(99001));
    assert!(!searcher.is_mate_score(99000));
    assert!(!searcher.is_mate_score(0));
    assert!(!searcher.is_mate_score(-99000));
    assert!(searcher.is_mate_score(-99001));
    assert!(searcher.is_mate_score(i32::MIN));
}

#[test]
fn mate_scores_are_counted_from_the_node_in_the_table() {
    let searcher = Searcher::new(Board::default(), true, 1024).unwrap();
    assert_eq!(searcher.correct_score_to_store(99990, 4), 99994);
    assert_eq!(searcher.correct_score_to_store(-99990, 4), -99994);
    assert_eq!(searcher.correct_score_to_store(250, 4), 250);
    assert_eq!(searcher.correct_score_to_store(-99000, 4), -99000);
    assert_eq!(searcher.correct_retrieved_mate_score(99994, 4), 99990);
    assert_eq!(searcher.correct_retrieved_mate_score(-99994, 4), -99990);
    assert_eq!(searcher.correct_retrieved_mate_score(250, 4), 250);
    assert_eq!(searcher.correct_retrieved_mate_score(99994, 10), 99984);
}

#[test]
fn exact_entry_round_trip() {
    let mut searcher = Searcher::new(Board::default(), true, 1024).unwrap();
    let best = quiet(12, 28);
    searcher.store_eval(77, 4, 0, 123, EvalType::Exact, Some(best));
    assert_eq!(searcher.lookup_evaluation(77, 4, 0, -10, 10), Some(123));
    assert_eq!(searcher.lookup_evaluation(77, 3, 0, -10, 10), Some(123));
    assert_eq!(searcher.lookup_evaluation(77, 0, 0, 500, 600), Some(123));
    // A deeper search cannot use it.
    assert_eq!(searcher.lookup_evaluation(77, 5, 0, -10, 10), None);
    // Another fingerprint finds nothing.
    assert_eq!(searcher.lookup_evaluation(78, 1, 0, -10, 10), None);
}

#[test]
fn upper_bound_answers_only_at_or_below_alpha() {
    let mut searcher = Searcher::new(Board::default(), true, 1024).unwrap();
    searcher.store_eval(77, 4, 0, 50, EvalType::UpperBound, None);
    assert_eq!(searcher.lookup_evaluation(77, 4, 0, 50, 90), Some(50));
    assert_eq!(searcher.lookup_evaluation(77, 4, 0, 60, 90), Some(50));
    assert_eq!(searcher.lookup_evaluation(77, 4, 0, 49, 90), None);
}

#[test]
fn lower_bound_answers_only_at_or_above_beta() {
    let mut searcher = Searcher::new(Board::default(), true, 1024).unwrap();
    searcher.store_eval(77, 4, 0, 50, EvalType::LowerBound, Some(quiet(1, 2)));
    assert_eq!(searcher.lookup_evaluation(77, 4, 0, 10, 50), Some(50));
    assert_eq!(searcher.lookup_evaluation(77, 4, 0, 10, 40), Some(50));
    assert_eq!(searcher.lookup_evaluation(77, 4, 0, 10, 51), None);
}

#[test]
fn stored_mate_is_rebased_to_the_asking_ply() {
    let mut searcher = Searcher::new(Board::default(), true, 1024).unwrap();
    // A mate 10 plies from the root, found 3 plies from the root.
    searcher.store_eval(77, 2, 3, 99990, EvalType::Exact, Some(quiet(1, 2)));
    assert_eq!(searcher.lookup_evaluation(77, 2, 3, -10, 10), Some(99990));
    // The same position 5 plies from the root: the mate is 12 plies away.
    assert_eq!(searcher.lookup_evaluation(77, 2, 5, -10, 10), Some(99988));
    assert_eq!(searcher.lookup_evaluation(77, 2, 0, -10, 10), Some(99993));
    searcher.store_eval(78, 2, 3, -99990, EvalType::Exact, None);
    assert_eq!(searcher.lookup_evaluation(78, 2, 5, -10, 10), Some(-99988));
}

#[test]
fn stored_move_is_remembered() {
    let mut table = TranspositionTable::new(1024);
    assert_eq!(get_stored_move(&table, 9), None);
    table.store(9, 1, Some(quiet(8, 16)), 1, EvalType::Exact);
    assert_eq!(get_stored_move(&table, 9), Some(quiet(8, 16)));
    table.store(9, 1, None, 1, EvalType::UpperBound);
    assert_eq!(get_stored_move(&table, 9), None);
}

#[test]
fn depth_one_takes_the_hanging_queen() {
    // The pawn on e4 can take the queen on d5; nothing else is going on.
    let position = board("4k3/8/8/3q4/4P3/8/8/Q5K1 w - - 0 1");
    let mut searcher = Searcher::new(position, true, TABLE_BYTES).unwrap();
    searcher.do_iterative_deepening_search(1);
    assert_eq!(searcher.completed_depth(), 1);
    assert_eq!(searcher.get_best_move(), Some(quiet(28, 35)));
    assert!(searcher.get_best_eval() >= 900 - 50);
    // What is left: king, queen and pawn against the king.
    let after = board("4k3/8/8/3P4/8/8/8/Q5K1 b - - 0 1");
    assert_eq!(searcher.get_best_eval(), -evaluate(&after));
}

#[test]
fn checkmated_node_scores_mate_at_its_ply() {
    // Black is mated on the back rank.
    let position = board("R5k1/5ppp/8/8/8/8/8/6K1 b - - 0 1");
    let mut searcher = Searcher::new(position, true, TABLE_BYTES).unwrap();
    assert_eq!(searcher.search_moves(1, 0, NEG_INF, POS_INF), -IMMEDIATE_MATE_SCORE);
    assert_eq!(searcher.search_moves(1, 3, NEG_INF, POS_INF), -(IMMEDIATE_MATE_SCORE - 3));
    assert_eq!(searcher.search_moves(4, 7, -5, 5), -(IMMEDIATE_MATE_SCORE - 7));
}

#[test]
fn mate_in_one_scores_one_ply_short_of_mate() {
    let position = board("6k1/5ppp/8/8/8/8/8/R5K1 w - - 0 1");
    let mut searcher = Searcher::new(position, true, TABLE_BYTES).unwrap();
    assert_eq!(searcher.search_moves(2, 0, NEG_INF, POS_INF), IMMEDIATE_MATE_SCORE - 1);
    let mut deeper = Searcher::new(position, true, TABLE_BYTES).unwrap();
    assert_eq!(deeper.search_moves(2, 4, NEG_INF, POS_INF), IMMEDIATE_MATE_SCORE - 5);
}

#[test]
fn deepening_stops_at_the_first_mate() {
    let position = board("6k1/5ppp/8/8/8/8/8/R5K1 w - - 0 1");
    let mut searcher = Searcher::new(position, true, TABLE_BYTES).unwrap();
    searcher.do_iterative_deepening_search(6);
    assert_eq!(searcher.completed_depth(), 2);
    assert_eq!(searcher.get_best_move(), Some(quiet(0, 56)));
    assert_eq!(searcher.get_best_eval(), IMMEDIATE_MATE_SCORE - 1);
    assert!(!searcher.is_aborted());
}

#[test]
fn rook_endgame_mate_ends_the_deepening_early() {
    // King and rook against king, mate in two.
    let position = board("k7/8/2K5/8/8/8/8/7R w - - 0 1");
    let mut searcher = Searcher::new(position, true, TABLE_BYTES).unwrap();
    searcher.do_iterative_deepening_search(10);
    assert!(searcher.is_mate_score(searcher.get_best_eval()));
    assert_eq!(searcher.get_best_eval(), IMMEDIATE_MATE_SCORE - 3);
    assert_eq!(searcher.completed_depth(), 4);
    assert!(searcher.get_best_move().is_some());
}

#[test]
fn unbounded_deepening_ends_with_a_mate() {
    let position = board("7k/8/6K1/8/8/8/8/R7 w - - 0 1");
    let mut searcher = Searcher::new(position, true, TABLE_BYTES).unwrap();
    searcher.do_iterative_deepening_search(0);
    assert_eq!(searcher.completed_depth(), 2);
    assert_eq!(searcher.get_best_move(), Some(quiet(0, 56)));
    assert_eq!(searcher.get_best_eval(), IMMEDIATE_MATE_SCORE - 1);
}

#[test]
fn stalemate_scores_zero_whatever_the_material() {
    // Black to move has no move and is not in check; White is a queen up.
    let position = board("7k/5Q2/6K1/8/8/8/8/8 b - - 0 1");
    let mut searcher = Searcher::new(position, true, TABLE_BYTES).unwrap();
    assert_eq!(searcher.search_moves(1, 0, NEG_INF, POS_INF), 0);
    assert_eq!(searcher.search_moves(3, 0, NEG_INF, POS_INF), 0);
    assert_eq!(searcher.search_moves(0, 1, NEG_INF, POS_INF), 0);
    assert_eq!(searcher.search_moves(2, 5, -700, -600), 0);
    let mut plain = Searcher::new(position, false, TABLE_BYTES).unwrap();
    assert_eq!(plain.search_moves(2, 0, NEG_INF, POS_INF), 0);
}

#[test]
fn depth_zero_is_the_quiescence_search_or_the_evaluation() {
    let position = board("4k3/8/8/3q4/4P3/8/8/Q5K1 w - - 0 1");
    let after = board("4k3/8/8/3P4/8/8/8/Q5K1 b - - 0 1");
    let mut quiescent = Searcher::new(position, true, TABLE_BYTES).unwrap();
    assert_eq!(quiescent.search_moves(0, 0, NEG_INF, POS_INF), -evaluate(&after));
    let mut plain = Searcher::new(position, false, TABLE_BYTES).unwrap();
    assert_eq!(plain.search_moves(0, 0, NEG_INF, POS_INF), evaluate(&position));
}

#[test]
fn quiescence_stands_pat_at_beta() {
    let position = board("4k3/8/8/8/4P3/8/8/4K3 w - - 0 1");
    let mut searcher = Searcher::new(position, true, TABLE_BYTES).unwrap();
    // The evaluation is 120.
    assert_eq!(searcher.search_captures(MAX_CAPTURE_DEPTH, -1000, 100), 100);
    assert_eq!(searcher.search_captures(MAX_CAPTURE_DEPTH, -1000, 1000), 120);
    assert_eq!(searcher.search_captures(MAX_CAPTURE_DEPTH, 200, 1000), 200);
    assert_eq!(searcher.stats().quiescence_nodes, 3);
}

#[test]
fn quiescence_without_budget_does_not_capture() {
    let position = board("4k3/8/8/3q4/4P3/8/8/Q5K1 w - - 0 1");
    let mut searcher = Searcher::new(position, true, TABLE_BYTES).unwrap();
    assert_eq!(searcher.search_captures(0, NEG_INF, POS_INF), evaluate(&position));
    assert_eq!(searcher.stats().quiescence_nodes, 1);
}

#[test]
fn empty_window_after_narrowing_returns_its_lower_bound() {
    let mut searcher = Searcher::new(Board::default(), true, TABLE_BYTES).unwrap();
    // Ten plies from the root no score is above 99990.
    assert_eq!(searcher.search_moves(1, 10, 99995, 99999), 99995);
    // ... and none is below -99990.
    assert_eq!(searcher.search_moves(1, 10, -99999, -99995), -99990);
    assert_eq!(searcher.stats().nodes, 0);
}

#[test]
fn search_leaves_board_and_committed_result_alone() {
    let mut searcher = Searcher::new(Board::default(), true, TABLE_BYTES).unwrap();
    let score = searcher.search_moves(3, 0, NEG_INF, POS_INF);
    assert!(score.abs() < 1000);
    assert_eq!(searcher.get_board(), Board::default());
    assert_eq!(searcher.get_best_move(), None);
    assert_eq!(searcher.get_best_eval(), 0);
    assert!(searcher.stats().nodes > 0);
    assert!(searcher.stats().quiescence_nodes > 0);
}

#[test]
fn deepening_commits_the_result_of_its_last_iteration() {
    let mut searcher = Searcher::new(Board::default(), true, TABLE_BYTES).unwrap();
    searcher.do_iterative_deepening_search(3);
    assert_eq!(searcher.completed_depth(), 3);
    assert!(!searcher.is_aborted());
    let best = searcher.get_best_move().expect("a best move");
    let legal: Vec<chess::ChessMove> = chess::MoveGen::new_legal(&Board::default()).collect();
    assert!(legal.iter().any(|mv| {
        mv.get_source().to_int() == best.source
            && mv.get_dest().to_int() == best.dest
            && mv.get_promotion().is_none()
    }));
    assert_eq!(best.promotion, None);

    // The same iterations by hand give the same score.
    let mut by_hand = Searcher::new(Board::default(), true, TABLE_BYTES).unwrap();
    by_hand.search_moves(1, 0, NEG_INF, POS_INF);
    by_hand.search_moves(2, 0, NEG_INF, POS_INF);
    let score = by_hand.search_moves(3, 0, NEG_INF, POS_INF);
    assert_eq!(searcher.get_best_eval(), score);
}

#[test]
fn deepening_resets_the_counters() {
    let mut searcher = Searcher::new(Board::default(), true, TABLE_BYTES).unwrap();
    searcher.do_iterative_deepening_search(2);
    let first = searcher.stats();
    assert!(first.nodes >= 20);
    let mut fresh = Searcher::new(Board::default(), true, TABLE_BYTES).unwrap();
    fresh.do_iterative_deepening_search(2);
    assert_eq!(fresh.stats(), first);
}

#[test]
fn second_deepening_is_answered_by_the_table() {
    let mut searcher = Searcher::new(Board::default(), true, TABLE_BYTES).unwrap();
    searcher.do_iterative_deepening_search(3);
    let best = searcher.get_best_move();
    let eval = searcher.get_best_eval();
    searcher.do_iterative_deepening_search(3);
    assert_eq!(searcher.get_best_move(), best);
    assert_eq!(searcher.get_best_eval(), eval);
    assert_eq!(searcher.completed_depth(), 3);
    assert_eq!(
        searcher.stats(),
        SearchStats { nodes: 0, quiescence_nodes: 0, tt_hits: 3, cutoffs: 0 }
    );
}

#[test]
fn table_answers_the_second_search() {
    let mut searcher = Searcher::new(Board::default(), true, TABLE_BYTES).unwrap();
    let first = searcher.search_moves(3, 0, NEG_INF, POS_INF);
    let hits = searcher.stats().tt_hits;
    let nodes = searcher.stats().nodes;
    let second = searcher.search_moves(3, 0, NEG_INF, POS_INF);
    assert_eq!(first, second);
    assert_eq!(searcher.stats().tt_hits, hits + 1);
    assert_eq!(searcher.stats().nodes, nodes);
}

#[test]
fn promotion_to_mate_is_found() {
    // The pawn promotes on e8 and mates: a queen or a rook will do.
    let position = board("6k1/4P2p/6pK/8/8/8/8/8 w - - 0 1");
    let mut searcher = Searcher::new(position, true, TABLE_BYTES).unwrap();
    searcher.do_iterative_deepening_search(2);
    let best = searcher.get_best_move().expect("a best move");
    assert_eq!(best.source, 52);
    assert_eq!(best.dest, 60);
    assert!(best.promotion == Some(PieceKind::Queen) || best.promotion == Some(PieceKind::Rook));
    assert_eq!(searcher.get_best_eval(), IMMEDIATE_MATE_SCORE - 1);
}

#[test]
fn abort_before_a_search_returns_zero_and_keeps_the_result() {
    let mut searcher = Searcher::new(Board::default(), true, TABLE_BYTES).unwrap();
    searcher.do_iterative_deepening_search(2);
    let best = searcher.get_best_move();
    let eval = searcher.get_best_eval();
    let stats = searcher.stats();
    assert!(best.is_some());
    let root = Board::default().get_hash();
    let remembered = searcher.lookup_evaluation(root, 2, 0, NEG_INF, POS_INF);
    assert_eq!(remembered, Some(eval));
    searcher.end_search();
    assert!(searcher.is_aborted());
    assert_eq!(searcher.search_moves(3, 0, NEG_INF, POS_INF), 0);
    // Nothing was stored for the search that was stopped.
    assert_eq!(searcher.lookup_evaluation(root, 2, 0, NEG_INF, POS_INF), remembered);
    assert_eq!(searcher.lookup_evaluation(root, 3, 0, NEG_INF, POS_INF), None);
    assert_eq!(searcher.search_captures(MAX_CAPTURE_DEPTH, NEG_INF, POS_INF), 0);
    assert_eq!(searcher.get_best_move(), best);
    assert_eq!(searcher.get_best_eval(), eval);
    assert_eq!(searcher.completed_depth(), 2);
    assert_eq!(searcher.stats(), stats);
}

#[test]
fn abort_through_the_handle_stops_the_next_search() {
    let mut searcher = Searcher::new(Board::default(), true, TABLE_BYTES).unwrap();
    searcher.search_moves(1, 0, NEG_INF, POS_INF);
    assert!(!searcher.is_aborted());
    assert!(searcher.stats().nodes > 0);
    let handle = searcher.abort_handle();
    assert!(!handle.is_requested());
    handle.request();
    assert!(handle.is_requested());
    let nodes = searcher.stats().nodes;
    assert_eq!(searcher.search_moves(2, 0, NEG_INF, POS_INF), 0);
    assert!(searcher.is_aborted());
    assert_eq!(searcher.stats().nodes, nodes);
}

#[test]
fn clones_of_a_handle_share_the_flag() {
    let mut searcher = Searcher::new(Board::default(), true, TABLE_BYTES).unwrap();
    let handle = searcher.abort_handle();
    let shared = handle.clone();
    assert!(!shared.is_requested());
    handle.request();
    assert!(shared.is_requested());
    searcher.search_moves(1, 0, NEG_INF, POS_INF);
    assert!(searcher.is_aborted());
}

#[test]
fn deepening_lowers_a_raised_flag() {
    let mut searcher = Searcher::new(Board::default(), true, TABLE_BYTES).unwrap();
    let handle = searcher.abort_handle();
    handle.request();
    searcher.do_iterative_deepening_search(2);
    assert!(!handle.is_requested());
    assert!(!searcher.is_aborted());
    assert_eq!(searcher.completed_depth(), 2);
}

#[test]
fn deepening_starts_with_the_abort_flag_lowered() {
    let mut searcher = Searcher::new(Board::default(), true, TABLE_BYTES).unwrap();
    searcher.end_search();
    searcher.do_iterative_deepening_search(1);
    assert!(!searcher.is_aborted());
    assert_eq!(searcher.completed_depth(), 1);
    assert!(searcher.get_best_move().is_some());
}

#[test]
fn no_searcher_for_a_board_with_too_many_pieces() {
    // Twenty-four white knights: more than the move generator has room for.
    let crowded = board("NNNNNNNN/NNNNNNNN/NNNNNNNN/8/8/8/8/k6K w - - 0 1");
    assert_eq!(count_pieces(Side::White, &crowded), 25);
    assert_eq!(count_pieces(Side::Black, &crowded), 1);
    assert!(!fits_piece_limit(&crowded));
    assert!(Searcher::new(crowded, true, TABLE_BYTES).is_none());
    let full = Board::default();
    assert_eq!(count_pieces(Side::White, &full), 16);
    assert_eq!(count_pieces(Side::Black, &full), 16);
    assert!(fits_piece_limit(&full));
    assert!(Searcher::new(full, true, TABLE_BYTES).is_some());
}

#[test]
fn taking_in_passing_is_a_capture() {
    // The black pawn has just gone from d7 to d5, beside the white pawn on e5.
    let position = board("4k3/8/8/3pP3/8/8/8/4K3 w - d6 0 1");
    let passing = quiet(36, 43);
    assert!(captures(&position, passing));
    assert!(!captures(&position, quiet(36, 44)));
    assert!(!captures(&position, quiet(4, 12)));
    assert_eq!(capture_moves(&position), vec![passing]);
    // Without the right to take in passing the same step is no capture.
    let later = board("4k3/8/8/3pP3/8/8/8/4K3 w - - 0 1");
    assert!(!captures(&later, passing));
    assert_eq!(capture_moves(&later), Vec::new());
    // Black takes downwards.
    let black = board("4k3/8/8/8/3pP3/8/8/4K3 b - e3 0 1");
    assert!(captures(&black, quiet(27, 20)));
    assert_eq!(capture_moves(&black), vec![quiet(27, 20)]);
}

#[test]
fn captures_are_the_moves_onto_the_opponent() {
    let position = board("4k3/8/2p5/3q3r/4P1P1/8/8/4K3 w - - 0 1");
    assert!(captures(&position, quiet(28, 35)));
    assert!(captures(&position, quiet(30, 39)));
    assert!(!captures(&position, quiet(28, 36)));
    assert!(!captures(&position, quiet(4, 28)));
    assert!(!captures(&position, quiet(4, 64)));
    assert_eq!(capture_moves(&position), vec![quiet(28, 35), quiet(30, 39)]);
}

#[test]
fn quiescence_takes_in_passing() {
    let position = board("4k3/8/8/3pP3/8/8/8/4K3 w - d6 0 1");
    let after = board("4k3/8/3P4/8/8/8/8/4K3 b - - 0 1");
    assert_eq!(evaluate(&position), 5);
    assert_eq!(evaluate(&after), -130);
    let mut searcher = Searcher::new(position, true, TABLE_BYTES).unwrap();
    assert_eq!(searcher.search_captures(MAX_CAPTURE_DEPTH, NEG_INF, POS_INF), 130);
    assert_eq!(searcher.search_moves(0, 0, NEG_INF, POS_INF), 130);
}

#[test]
fn fresh_searchers_on_equal_boards_agree() {
    let position = board("r1bqk2r/pppp1ppp/2n2n2/2b1p3/2B1P3/3P1N2/PPP2PPP/RNBQK2R b KQkq - 0 1");
    let mut first = Searcher::new(position, true, TABLE_BYTES).unwrap();
    let mut second = Searcher::new(position, true, TABLE_BYTES).unwrap();
    first.do_iterative_deepening_search(3);
    second.do_iterative_deepening_search(3);
    assert_eq!(first.get_best_move(), second.get_best_move());
    assert_eq!(first.get_best_eval(), second.get_best_eval());
    assert_eq!(first.stats(), second.stats());
    assert_eq!(first.completed_depth(), second.completed_depth());
}

#[test]
fn deepening_step_by_step() {
    let mut searcher = Searcher::new(Board::default(), true, TABLE_BYTES).unwrap();
    searcher.begin_deepening();
    assert!(searcher.deepen(3));
    assert_eq!(searcher.completed_depth(), 1);
    // The first iteration searches the twenty moves of the start position.
    assert_eq!(searcher.stats().nodes, 20);
    assert!(searcher.deepen(3));
    assert!(searcher.deepen(3));
    assert_eq!(searcher.completed_depth(), 3);
    // The target is reached: nothing more is done.
    let stats = searcher.stats();
    assert!(!searcher.deepen(3));
    assert_eq!(searcher.completed_depth(), 3);
    assert_eq!(searcher.stats(), stats);
    // The steps give what the whole deepening gives.
    let mut whole = Searcher::new(Board::default(), true, TABLE_BYTES).unwrap();
    whole.do_iterative_deepening_search(3);
    assert_eq!(searcher.get_best_move(), whole.get_best_move());
    assert_eq!(searcher.get_best_eval(), whole.get_best_eval());
    assert_eq!(searcher.stats(), whole.stats());
}

#[test]
fn deepening_steps_end_with_a_mate_or_a_stop() {
    let mate = board("6k1/5ppp/8/8/8/8/8/R5K1 w - - 0 1");
    let mut mating = Searcher::new(mate, true, TABLE_BYTES).unwrap();
    mating.begin_deepening();
    assert!(mating.deepen(6));
    assert!(mating.deepen(6));
    assert_eq!(mating.get_best_eval(), IMMEDIATE_MATE_SCORE - 1);
    assert!(!mating.deepen(6));
    assert_eq!(mating.completed_depth(), 2);

    let mut stopped = Searcher::new(Board::default(), true, TABLE_BYTES).unwrap();
    stopped.begin_deepening();
    assert!(stopped.deepen(0));
    let best = stopped.get_best_move();
    stopped.end_search();
    assert!(!stopped.deepen(0));
    assert_eq!(stopped.completed_depth(), 1);
    assert_eq!(stopped.get_best_move(), best);
}

#[test]
#[allow(deprecated)]
fn no_searcher_for_a_board_that_is_not_sane() {
    // A castling right without its rook.
    let mut rookless = board("4k3/8/8/8/8/8/8/4K3 w - - 0 1");
    assert!(is_playable(&rookless));
    rookless.add_castle_rights(chess::Color::White, chess::CastleRights::KingSide);
    assert!(!is_playable(&rookless));
    assert!(Searcher::new(rookless, true, TABLE_BYTES).is_none());
    // A board with too many pieces is sane, and still not playable.
    let crowded = board("NNNNNNNN/NNNNNNNN/NNNNNNNN/8/8/8/8/k6K w - - 0 1");
    assert!(!is_playable(&crowded));
    assert!(is_playable(&Board::default()));
}

#[test]
fn a_stopped_search_asks_nothing_of_its_arguments() {
    let mut searcher = Searcher::new(Board::default(), true, TABLE_BYTES).unwrap();
    searcher.end_search();
    assert_eq!(searcher.search_moves(200, 5000, 7, -7), 0);
    assert_eq!(searcher.search_captures(3, 9, 9), 0);
    assert_eq!(searcher.stats().nodes, 0);
    assert_eq!(searcher.stats().quiescence_nodes, 0);
    assert_eq!(searcher.get_board(), Board::default());
}
