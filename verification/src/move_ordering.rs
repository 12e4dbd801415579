//! Move ordering: the remembered move first, then the captures by what they
//! win, then the other moves as they were generated.

use vstd::prelude::*;
use crate::evaluation::{piece_value, value_of};
use crate::position::{board_hash, board_view, captures, color_on, fingerprint_of, piece_on};
use crate::position::{captured_kind, is_capture, sane_of, side_to_move, BoardView, Move};
use crate::position::{PieceKind, Side};
use crate::searcher::{get_stored_move, stored_move};
use crate::table::TranspositionTable;

verus! {

/// The score of the move that the transposition table remembers: above the
/// score of any capture.
pub const HASH_MOVE_SCORE: i32 = 1000000;

/// The score of a capture is this many times the value of the piece taken.
pub const CAPTURE_VALUE_MULTIPLIER: i32 = 10;

/// What a capture loses in score where a pawn guards the square it ends on.
pub const PAWN_GUARD_PENALTY: i32 = 350;

/// A pawn of the opponent of the player to move attacks `square`.
pub open spec fn pawn_guards(view: BoardView, square: int) -> bool {
    let file = square % 8;
    let rank = square / 8;
    match view.side_to_move {
        Side::White => rank < 7 && ((file > 0 && view.holds(
            square + 7,
            PieceKind::Pawn,
            Side::Black,
        )) || (file < 7 && view.holds(square + 9, PieceKind::Pawn, Side::Black))),
        Side::Black => rank > 0 && ((file > 0 && view.holds(
            square - 9,
            PieceKind::Pawn,
            Side::White,
        )) || (file < 7 && view.holds(square - 7, PieceKind::Pawn, Side::White))),
    }
}

/// The score of a capture of a piece of kind `taken` on `square`.
pub open spec fn capture_score(view: BoardView, taken: PieceKind, square: int) -> int {
    CAPTURE_VALUE_MULTIPLIER * piece_value(taken) - if pawn_guards(view, square) {
        PAWN_GUARD_PENALTY as int
    } else {
        0
    }
}

/// The score by which a move is ordered: the remembered move has the highest,
/// a capture has its capture score, any other move has 0.
pub open spec fn move_score(view: BoardView, hash_move: Option<Move>, mv: Move) -> int {
    if hash_move == Some(mv) {
        HASH_MOVE_SCORE as int
    } else if is_capture(view, mv) {
        capture_score(view, captured_kind(view, mv), mv.dest as int)
    } else {
        0
    }
}

/// A capture of anything but a king scores above every move that captures
/// nothing, and below the remembered move: so the remembered move is
/// searched first, then the captures, then the other moves.
pub proof fn captures_score_between(view: BoardView, hash_move: Option<Move>, mv: Move)
    requires
        hash_move != Some(mv),
    ensures
        !is_capture(view, mv) ==> move_score(view, hash_move, mv) == 0,
        is_capture(view, mv) && captured_kind(view, mv) != PieceKind::King ==> 0 < move_score(
            view,
            hash_move,
            mv,
        ) < HASH_MOVE_SCORE,
{
}

/// `sorted` with `mv` put in behind every move that scores at least as much.
pub open spec fn insert_by_score(
    view: BoardView,
    hash_move: Option<Move>,
    sorted: Seq<Move>,
    mv: Move,
) -> Seq<Move>
    decreases sorted.len(),
{
    if sorted.len() == 0 {
        seq![mv]
    } else if move_score(view, hash_move, sorted.last()) >= move_score(view, hash_move, mv) {
        sorted.push(mv)
    } else {
        insert_by_score(view, hash_move, sorted.drop_last(), mv).push(sorted.last())
    }
}

/// The moves in the order in which they are searched: by falling score, and
/// moves of one score in the order in which they stand in `moves`.
pub open spec fn order_of(view: BoardView, hash_move: Option<Move>, moves: Seq<Move>) -> Seq<Move>
    decreases moves.len(),
{
    if moves.len() == 0 {
        Seq::empty()
    } else {
        insert_by_score(
            view,
            hash_move,
            order_of(view, hash_move, moves.drop_last()),
            moves.last(),
        )
    }
}

/// Putting a move in at `position` is what `insert_by_score` does, where every
/// move from `position` on scores less and the move before scores no less.
proof fn insert_lands_at(
    view: BoardView,
    hash_move: Option<Move>,
    sorted: Seq<Move>,
    mv: Move,
    position: int,
)
    requires
        0 <= position <= sorted.len(),
        forall|j: int|
            position <= j < sorted.len() ==> move_score(view, hash_move, #[trigger] sorted[j])
                < move_score(view, hash_move, mv),
        position > 0 ==> move_score(view, hash_move, sorted[position - 1]) >= move_score(
            view,
            hash_move,
            mv,
        ),
    ensures
        insert_by_score(view, hash_move, sorted, mv) == sorted.insert(position, mv),
    decreases sorted.len() - position,
{
    if position == sorted.len() {
        assert(sorted.push(mv) =~= sorted.insert(position, mv));
        assert(seq![mv] =~= Seq::<Move>::empty().push(mv));
    } else {
        let front = sorted.drop_last();
        insert_lands_at(view, hash_move, front, mv, position);
        assert(front.insert(position, mv).push(sorted.last()) =~= sorted.insert(position, mv));
    }
}

/// Inserting keeps the moves that were there and adds the new one.
proof fn insert_adds_one(view: BoardView, hash_move: Option<Move>, sorted: Seq<Move>, mv: Move)
    ensures
        insert_by_score(view, hash_move, sorted, mv).to_multiset() == sorted.to_multiset().insert(
            mv,
        ),
        insert_by_score(view, hash_move, sorted, mv).len() == sorted.len() + 1,
    decreases sorted.len(),
{
    broadcast use vstd::seq_lib::group_to_multiset_ensures;

    if sorted.len() == 0 {
        assert(seq![mv] =~= sorted.push(mv));
    } else if move_score(view, hash_move, sorted.last()) >= move_score(view, hash_move, mv) {
    } else {
        let front = sorted.drop_last();
        insert_adds_one(view, hash_move, front, mv);
        assert(front.push(sorted.last()) =~= sorted);
        assert(insert_by_score(view, hash_move, sorted, mv).to_multiset() =~= sorted.to_multiset().insert(
            mv,
        ));
    }
}

/// Inserting into moves that stand by falling score leaves them so.
proof fn insert_keeps_order(view: BoardView, hash_move: Option<Move>, sorted: Seq<Move>, mv: Move)
    requires
        falls_by_score(view, hash_move, sorted),
    ensures
        falls_by_score(view, hash_move, insert_by_score(view, hash_move, sorted, mv)),
    decreases sorted.len(),
{
    if sorted.len() == 0 {
    } else if move_score(view, hash_move, sorted.last()) >= move_score(view, hash_move, mv) {
    } else {
        let front = sorted.drop_last();
        insert_keeps_order(view, hash_move, front, mv);
        insert_adds_one(view, hash_move, front, mv);
        let placed = insert_by_score(view, hash_move, front, mv);
        let whole = placed.push(sorted.last());
        assert forall|i: int, j: int| 0 <= i < j < whole.len() implies move_score(
            view,
            hash_move,
            whole[i],
        ) >= move_score(view, hash_move, whole[j]) by {
            if j == whole.len() - 1 {
                broadcast use vstd::seq_lib::group_to_multiset_ensures;

                assert(placed.contains(placed[i]));
                assert(placed.to_multiset().count(placed[i]) > 0);
                if placed[i] != mv {
                    assert(front.to_multiset().count(placed[i]) > 0);
                    assert(front.contains(placed[i]));
                    let k = choose|k: int| 0 <= k < front.len() && front[k] == placed[i];
                    assert(sorted[k] == placed[i]);
                }
            }
        }
    }
}

/// The moves stand by falling score.
pub open spec fn falls_by_score(view: BoardView, hash_move: Option<Move>, moves: Seq<Move>) -> bool {
    forall|i: int, j: int|
        0 <= i < j < moves.len() ==> move_score(view, hash_move, #[trigger] moves[i])
            >= move_score(view, hash_move, #[trigger] moves[j])
}

/// Ordering neither drops nor adds a move, and the ordered moves stand by
/// falling score.
pub proof fn order_is_a_sorted_rearrangement(
    view: BoardView,
    hash_move: Option<Move>,
    moves: Seq<Move>,
)
    ensures
        order_of(view, hash_move, moves).to_multiset() == moves.to_multiset(),
        order_of(view, hash_move, moves).len() == moves.len(),
        falls_by_score(view, hash_move, order_of(view, hash_move, moves)),
    decreases moves.len(),
{
    broadcast use vstd::seq_lib::group_to_multiset_ensures;

    if moves.len() == 0 {
        assert(moves =~= Seq::<Move>::empty());
    } else {
        let front = moves.drop_last();
        order_is_a_sorted_rearrangement(view, hash_move, front);
        insert_adds_one(view, hash_move, order_of(view, hash_move, front), moves.last());
        insert_keeps_order(view, hash_move, order_of(view, hash_move, front), moves.last());
        assert(front.push(moves.last()) =~= moves);
    }
}

/// Every ordered move is one of the moves given.
pub proof fn ordered_moves_are_given(
    view: BoardView,
    hash_move: Option<Move>,
    moves: Seq<Move>,
    i: int,
)
    requires
        0 <= i < order_of(view, hash_move, moves).len(),
    ensures
        moves.contains(order_of(view, hash_move, moves)[i]),
{
    broadcast use vstd::seq_lib::group_to_multiset_ensures;

    order_is_a_sorted_rearrangement(view, hash_move, moves);
    let ordered = order_of(view, hash_move, moves);
    assert(ordered.contains(ordered[i]));
    assert(ordered.to_multiset().count(ordered[i]) > 0);
}

/// The remembered move is searched first where it is among the moves.
pub proof fn hash_move_comes_first(view: BoardView, hash_move: Move, moves: Seq<Move>)
    requires
        moves.contains(hash_move),
    ensures
        order_of(view, Some(hash_move), moves).len() > 0,
        order_of(view, Some(hash_move), moves)[0] == hash_move,
{
    broadcast use vstd::seq_lib::group_to_multiset_ensures;

    order_is_a_sorted_rearrangement(view, Some(hash_move), moves);
    let ordered = order_of(view, Some(hash_move), moves);
    assert(moves.to_multiset().count(hash_move) > 0);
    assert(ordered.contains(hash_move));
    let k = choose|k: int| 0 <= k < ordered.len() && ordered[k] == hash_move;
    if k > 0 {
        assert(move_score(view, Some(hash_move), ordered[0]) >= move_score(
            view,
            Some(hash_move),
            ordered[k],
        ));
    }
}

/// Does a piece of kind `kind` owned by `side` stand on `square`?
pub fn holds_piece(board: &chess::Board, square: u8, kind: PieceKind, side: Side) -> (yes: bool)
    requires
        sane_of(board_view(*board)),
        square < 64,
    ensures
        yes == board_view(*board).holds(square as int, kind, side),
{
    match piece_on(board, square) {
        Some(found) => match color_on(board, square) {
            Some(owner) => found == kind && owner == side,
            None => false,
        },
        None => false,
    }
}

/// Does a pawn of the opponent of the player to move attack `square`?
pub fn guarded_by_pawn(board: &chess::Board, square: u8) -> (yes: bool)
    requires
        sane_of(board_view(*board)),
        square < 64,
    ensures
        yes == pawn_guards(board_view(*board), square as int),
{
    let file = square % 8;
    let rank = square / 8;
    match side_to_move(board) {
        Side::White => rank < 7 && ((file > 0 && holds_piece(
            board,
            square + 7,
            PieceKind::Pawn,
            Side::Black,
        )) || (file < 7 && holds_piece(board, square + 9, PieceKind::Pawn, Side::Black))),
        Side::Black => rank > 0 && ((file > 0 && holds_piece(
            board,
            square - 9,
            PieceKind::Pawn,
            Side::White,
        )) || (file < 7 && holds_piece(board, square - 7, PieceKind::Pawn, Side::White))),
    }
}

/// The score by which `mv` is ordered on `board`.
pub fn score_move(board: &chess::Board, hash_move: Option<Move>, mv: Move) -> (score: i32)
    requires
        sane_of(board_view(*board)),
    ensures
        score == move_score(board_view(*board), hash_move, mv),
        -PAWN_GUARD_PENALTY <= score <= HASH_MOVE_SCORE,
{
    let remembered = match hash_move {
        Some(best) => best == mv,
        None => false,
    };
    if remembered {
        return HASH_MOVE_SCORE;
    }
    if !captures(board, mv) {
        return 0;
    }
    let taken = match piece_on(board, mv.dest) {
        Some(kind) => kind,
        None => PieceKind::Pawn,
    };
    let penalty = if guarded_by_pawn(board, mv.dest) {
        PAWN_GUARD_PENALTY
    } else {
        0
    };
    CAPTURE_VALUE_MULTIPLIER * value_of(taken) - penalty
}

/// Orders the moves of a position for the search: first the move that the
/// transposition table remembers for the position, where `use_tt` is set and
/// the move is among them; then the captures, the most valuable victim
/// first; then the other moves. Moves of one score keep their order.
pub fn order_moves(
    board: &chess::Board,
    tt: &TranspositionTable,
    move_list: Vec<Move>,
    use_tt: bool,
) -> (ordered: Vec<Move>)
    requires
        sane_of(board_view(*board)),
        tt.wf(),
    ensures
        ordered@ == order_of(
            board_view(*board),
            if use_tt {
                stored_move(tt@, fingerprint_of(board_view(*board)))
            } else {
                None
            },
            move_list@,
        ),
        ordered@.to_multiset() == move_list@.to_multiset(),
        falls_by_score(
            board_view(*board),
            if use_tt {
                stored_move(tt@, fingerprint_of(board_view(*board)))
            } else {
                None
            },
            ordered@,
        ),
{
    let ghost view = board_view(*board);
    let hash_move = if use_tt {
        get_stored_move(tt, board_hash(board))
    } else {
        None
    };
    let mut ordered: Vec<Move> = Vec::new();
    let mut scores: Vec<i32> = Vec::new();
    let mut next: usize = 0;
    while next < move_list.len()
        invariant
            next <= move_list.len(),
            view == board_view(*board),
            sane_of(view),
            ordered@ == order_of(view, hash_move, move_list@.take(next as int)),
            scores.len() == ordered.len(),
            forall|j: int|
                0 <= j < ordered.len() ==> #[trigger] scores[j] == move_score(
                    view,
                    hash_move,
                    ordered[j],
                ),
        decreases move_list.len() - next,
    {
        let mv = move_list[next];
        let score = score_move(board, hash_move, mv);
        let mut position = ordered.len();
        while position > 0 && scores[position - 1] < score
            invariant
                position <= ordered.len(),
                scores.len() == ordered.len(),
                forall|j: int|
                    0 <= j < ordered.len() ==> #[trigger] scores[j] == move_score(
                        view,
                        hash_move,
                        ordered[j],
                    ),
                score == move_score(view, hash_move, mv),
                forall|j: int|
                    position <= j < ordered.len() ==> move_score(
                        view,
                        hash_move,
                        #[trigger] ordered[j],
                    ) < score,
            decreases position,
        {
            position = position - 1;
        }
        proof {
            insert_lands_at(view, hash_move, ordered@, mv, position as int);
            assert(move_list@.take(next as int + 1).drop_last() =~= move_list@.take(next as int));
            assert(move_list@.take(next as int + 1).last() == mv);
        }
        ordered.insert(position, mv);
        scores.insert(position, score);
        next = next + 1;
    }
    proof {
        assert(move_list@.take(next as int) =~= move_list@);
        order_is_a_sorted_rearrangement(view, hash_move, move_list@);
    }
    ordered
}

} // verus!
