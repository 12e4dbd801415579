//! The static evaluator: material, piece-square tables and a penalty for
//! standing in check, seen from the player to move.

use vstd::prelude::*;
use crate::position::{board_view, checkers, color_on, piece_on, sane_of, side_to_move};
use crate::position::{bit_is_set, piece_count, pieces_below, BoardView, Occupant, PieceKind};
use crate::position::Side;

verus! {

pub const PAWNS: [i32; 64] = [
    0, 0, 0, 0, 0, 0, 0, 0,
    50, 50, 50, 50, 50, 50, 50, 50,
    10, 10, 20, 30, 30, 20, 10, 10,
    5, 5, 10, 25, 25, 10, 5, 5,
    0, 0, 0, 20, 20, 0, 0, 0,
    5, -5, -10, 0, 0, -10, -5, 5,
    5, 10, 10, -20, -20, 10, 10, 5,
    0, 0, 0, 0, 0, 0, 0, 0,
];

pub const KNIGHTS: [i32; 64] = [
    -50, -40, -30, -30, -30, -30, -40, -50,
    -40, -20, 0, 0, 0, 0, -20, -40,
    -30, 0, 10, 15, 15, 10, 0, -30,
    -30, 5, 15, 20, 20, 15, 5, -30,
    -30, 0, 15, 20, 20, 15, 0, -30,
    -30, 5, 10, 15, 15, 10, 5, -30,
    -40, -20, 0, 5, 5, 0, -20, -40,
    -50, -40, -30, -30, -30, -30, -40, -50,
];

pub const BISHOPS: [i32; 64] = [
    -20, -10, -10, -10, -10, -10, -10, -20,
    -10, 0, 0, 0, 0, 0, 0, -10,
    -10, 0, 5, 10, 10, 5, 0, -10,
    -10, 5, 5, 10, 10, 5, 5, -10,
    -10, 0, 10, 10, 10, 10, 0, -10,
    -10, 10, 10, 10, 10, 10, 10, -10,
    -10, 5, 0, 0, 0, 0, 5, -10,
    -20, -10, -10, -10, -10, -10, -10, -20,
];

pub const ROOKS: [i32; 64] = [
    0, 0, 0, 0, 0, 0, 0, 0,
    5, 10, 10, 10, 10, 10, 10, 5,
    -5, 0, 0, 0, 0, 0, 0, -5,
    -5, 0, 0, 0, 0, 0, 0, -5,
    -5, 0, 0, 0, 0, 0, 0, -5,
    -5, 0, 0, 0, 0, 0, 0, -5,
    -5, 0, 0, 0, 0, 0, 0, -5,
    0, 0, 0, 5, 5, 0, 0, 0,
];

pub const QUEENS: [i32; 64] = [
    -20, -10, -10, -5, -5, -10, -10, -20,
    -10, 0, 0, 0, 0, 0, 0, -10,
    -10, 0, 5, 5, 5, 5, 0, -10,
    -5, 0, 5, 5, 5, 5, 0, -5,
    0, 0, 5, 5, 5, 5, 0, -5,
    -10, 5, 5, 5, 5, 5, 0, -10,
    -10, 0, 5, 0, 0, 0, 0, -10,
    -20, -10, -10, -5, -5, -10, -10, -20,
];

pub const KING_MIDDLE: [i32; 64] = [
    -30, -40, -40, -50, -50, -40, -40, -30,
    -30, -40, -40, -50, -50, -40, -40, -30,
    -30, -40, -40, -50, -50, -40, -40, -30,
    -30, -40, -40, -50, -50, -40, -40, -30,
    -20, -30, -30, -40, -40, -30, -30, -20,
    -10, -20, -20, -20, -20, -20, -20, -10,
    20, 20, 0, 0, 0, 0, 20, 20,
    20, 30, 10, 0, 0, 10, 30, 20,
];

pub const PAWN_VALUE: i32 = 100;

pub const KNIGHT_VALUE: i32 = 320;

pub const BISHOP_VALUE: i32 = 330;

pub const ROOK_VALUE: i32 = 500;

pub const QUEEN_VALUE: i32 = 900;

/// What a player loses in the evaluation for standing in check.
pub const CHECK_PENALTY: i32 = 25;

/// No evaluation is further from zero than this.
pub const EVAL_LIMIT: i32 = 64025;

/// The material worth of a piece. The king has none: both sides always have one.
pub open spec fn piece_value(kind: PieceKind) -> int {
    match kind {
        PieceKind::Pawn => 100,
        PieceKind::Knight => 320,
        PieceKind::Bishop => 330,
        PieceKind::Rook => 500,
        PieceKind::Queen => 900,
        PieceKind::King => 0,
    }
}

/// The square on the same file and the opposite rank.
pub open spec fn flip_square(square: int) -> int {
    (7 - square / 8) * 8 + square % 8
}

/// Where a player's piece on `square` is looked up in a piece-square table.
/// The tables are written as Black sees the board; for White they are
/// mirrored, rank for rank.
pub open spec fn table_index(side: Side, square: int) -> int {
    match side {
        Side::Black => square,
        Side::White => flip_square(square),
    }
}

/// The entry of the piece-square table for `kind` at `index`.
pub open spec fn table_value(kind: PieceKind, index: int) -> int {
    match kind {
        PieceKind::Pawn => PAWNS[index] as int,
        PieceKind::Knight => KNIGHTS[index] as int,
        PieceKind::Bishop => BISHOPS[index] as int,
        PieceKind::Rook => ROOKS[index] as int,
        PieceKind::Queen => QUEENS[index] as int,
        PieceKind::King => KING_MIDDLE[index] as int,
    }
}

/// What `square` adds to the material of `side`.
pub open spec fn square_material(view: BoardView, side: Side, square: int) -> int {
    match view.squares[square] {
        Some(occupant) => if occupant.side == side {
            piece_value(occupant.kind)
        } else {
            0
        },
        None => 0,
    }
}

/// The material of `side` on the squares below `limit`.
pub open spec fn material_below(view: BoardView, side: Side, limit: int) -> int
    decreases limit,
{
    if limit <= 0 {
        0
    } else {
        material_below(view, side, limit - 1) + square_material(view, side, limit - 1)
    }
}

/// The material of `side`: the sum of the values of its pieces.
pub open spec fn material(view: BoardView, side: Side) -> int {
    material_below(view, side, 64)
}

/// 1 if a pawn of `side` stands on `square`, else 0.
pub open spec fn square_pawn(view: BoardView, side: Side, square: int) -> int {
    if view.holds(square, PieceKind::Pawn, side) {
        1
    } else {
        0
    }
}

/// The number of pawns of `side` on the squares below `limit`.
pub open spec fn pawns_below(view: BoardView, side: Side, limit: int) -> int
    decreases limit,
{
    if limit <= 0 {
        0
    } else {
        pawns_below(view, side, limit - 1) + square_pawn(view, side, limit - 1)
    }
}

/// The number of pawns of `side`.
pub open spec fn pawn_count(view: BoardView, side: Side) -> int {
    pawns_below(view, side, 64)
}

/// What the piece-square tables give `side` for a piece of kind `kind` on
/// `square`, when `side` has `pawns` pawns. The king's table counts only for
/// a side with fewer than two pawns.
pub open spec fn placement_value(side: Side, kind: PieceKind, square: int, pawns: int) -> int {
    if kind == PieceKind::King && pawns >= 2 {
        0
    } else {
        table_value(kind, table_index(side, square))
    }
}

/// What `square` adds to the placement score of `side`.
pub open spec fn square_placement(view: BoardView, side: Side, square: int) -> int {
    match view.squares[square] {
        Some(occupant) => if occupant.side == side {
            placement_value(side, occupant.kind, square, pawn_count(view, side))
        } else {
            0
        },
        None => 0,
    }
}

/// The placement score of `side` on the squares below `limit`.
pub open spec fn placement_below(view: BoardView, side: Side, limit: int) -> int
    decreases limit,
{
    if limit <= 0 {
        0
    } else {
        placement_below(view, side, limit - 1) + square_placement(view, side, limit - 1)
    }
}

/// The placement score of `side`: the sum of the table entries of its pieces.
pub open spec fn placement(view: BoardView, side: Side) -> int {
    placement_below(view, side, 64)
}

/// A piece of `side` gives check.
pub open spec fn gives_check(view: BoardView, side: Side) -> bool {
    exists|square: int|
        0 <= square < 64 && #[trigger] view.checkers.contains(square) && view.side_at(square)
            == Some(side)
}

/// The score of `side` by itself: material and placement, less the penalty
/// where the opponent gives check.
pub open spec fn side_score(view: BoardView, side: Side) -> int {
    material(view, side) + placement(view, side) - if gives_check(view, side.other()) {
        CHECK_PENALTY as int
    } else {
        0
    }
}

/// The static evaluation of a position: the score of the player to move less
/// the score of the opponent.
pub open spec fn evaluation(view: BoardView) -> int {
    side_score(view, view.side_to_move) - side_score(view, view.side_to_move.other())
}

/// Every entry of every piece-square table lies between -50 and 50.
pub proof fn table_values_are_small(kind: PieceKind, index: int)
    requires
        0 <= index < 64,
    ensures
        -50 <= table_value(kind, index) <= 50,
{
}

/// The material of a side on the first `limit` squares is at most 900 a square.
pub proof fn material_is_bounded(view: BoardView, side: Side, limit: int)
    requires
        0 <= limit <= 64,
    ensures
        0 <= material_below(view, side, limit) <= 900 * limit,
    decreases limit,
{
    if limit > 0 {
        material_is_bounded(view, side, limit - 1);
    }
}

/// The placement score of a side on the first `limit` squares is at most 50 a
/// square, either way.
pub proof fn placement_is_bounded(view: BoardView, side: Side, limit: int)
    requires
        0 <= limit <= 64,
    ensures
        -50 * limit <= placement_below(view, side, limit) <= 50 * limit,
    decreases limit,
{
    if limit > 0 {
        placement_is_bounded(view, side, limit - 1);
        let square = limit - 1;
        match view.squares[square] {
            Some(occupant) => {
                table_values_are_small(occupant.kind, table_index(side, square));
            },
            None => {},
        }
    }
}

/// The evaluation stays far inside the band that is kept for mate scores.
pub proof fn evaluation_is_bounded(view: BoardView)
    ensures
        -EVAL_LIMIT <= evaluation(view) <= EVAL_LIMIT,
{
    material_is_bounded(view, Side::White, 64);
    material_is_bounded(view, Side::Black, 64);
    placement_is_bounded(view, Side::White, 64);
    placement_is_bounded(view, Side::Black, 64);
}

/// The same position with the move handed to the other player.
pub open spec fn with_other_to_move(view: BoardView) -> BoardView {
    BoardView {
        squares: view.squares,
        side_to_move: view.side_to_move.other(),
        checkers: view.checkers,
        pinned: view.pinned,
        castling: view.castling,
        en_passant: view.en_passant,
    }
}

/// The sum of `term(0)`, ..., `term(limit - 1)`.
spec fn sum_below(term: spec_fn(int) -> int, limit: int) -> int
    decreases limit,
{
    if limit <= 0 {
        0
    } else {
        sum_below(term, limit - 1) + term(limit - 1)
    }
}

proof fn material_as_sum(view: BoardView, side: Side, limit: int)
    ensures
        material_below(view, side, limit) == sum_below(
            |square: int| square_material(view, side, square),
            limit,
        ),
    decreases limit,
{
    if limit > 0 {
        material_as_sum(view, side, limit - 1);
    }
}

proof fn pawns_as_sum(view: BoardView, side: Side, limit: int)
    ensures
        pawns_below(view, side, limit) == sum_below(
            |square: int| square_pawn(view, side, square),
            limit,
        ),
    decreases limit,
{
    if limit > 0 {
        pawns_as_sum(view, side, limit - 1);
    }
}

proof fn placement_as_sum(view: BoardView, side: Side, limit: int)
    ensures
        placement_below(view, side, limit) == sum_below(
            |square: int| square_placement(view, side, square),
            limit,
        ),
    decreases limit,
{
    if limit > 0 {
        placement_as_sum(view, side, limit - 1);
    }
}

/// The colour-mirrored counterpart of a position: the position seen in a
/// mirror laid along the middle of the board, with the colours exchanged.
/// Every piece changes its owner and moves to the opposite rank of its file.
/// The player to move keeps the move, and so commands the other army.
pub open spec fn flipped(view: BoardView) -> BoardView {
    BoardView {
        squares: Seq::new(
            64,
            |square: int|
                match view.squares[flip_square(square)] {
                    Some(occupant) => Some(
                        Occupant { kind: occupant.kind, side: occupant.side.other() },
                    ),
                    None => None,
                },
        ),
        side_to_move: view.side_to_move,
        checkers: Set::new(
            |square: int| 0 <= square < 64 && view.checkers.contains(flip_square(square)),
        ),
        pinned: Set::new(
            |square: int| 0 <= square < 64 && view.pinned.contains(flip_square(square)),
        ),
        castling: Seq::new(4, |i: int| view.castling[(i + 2) % 4]),
        en_passant: match view.en_passant {
            Some(square) => Some(flip_square(square)),
            None => None,
        },
    }
}

proof fn sum_of_a_rank(f: spec_fn(int) -> int, start: int)
    requires
        start >= 0,
    ensures
        sum_below(f, start + 8) == sum_below(f, start) + f(start) + f(start + 1) + f(start + 2)
            + f(start + 3) + f(start + 4) + f(start + 5) + f(start + 6) + f(start + 7),
{
    assert(sum_below(f, start + 1) == sum_below(f, start) + f(start));
    assert(sum_below(f, start + 2) == sum_below(f, start + 1) + f(start + 1));
    assert(sum_below(f, start + 3) == sum_below(f, start + 2) + f(start + 2));
    assert(sum_below(f, start + 4) == sum_below(f, start + 3) + f(start + 3));
    assert(sum_below(f, start + 5) == sum_below(f, start + 4) + f(start + 4));
    assert(sum_below(f, start + 6) == sum_below(f, start + 5) + f(start + 5));
    assert(sum_below(f, start + 7) == sum_below(f, start + 6) + f(start + 6));
    assert(sum_below(f, start + 8) == sum_below(f, start + 7) + f(start + 7));
}

proof fn sum_with_ranks_exchanged(f: spec_fn(int) -> int, g: spec_fn(int) -> int)
    requires
        forall|i: int| 0 <= i < 64 ==> #[trigger] g(i) == f(flip_square(i)),
    ensures
        sum_below(f, 64) == sum_below(g, 64),
{
    assert(sum_below(f, 0) == 0);
    assert(sum_below(g, 0) == 0);
    sum_of_a_rank(f, 0);
    sum_of_a_rank(f, 8);
    sum_of_a_rank(f, 16);
    sum_of_a_rank(f, 24);
    sum_of_a_rank(f, 32);
    sum_of_a_rank(f, 40);
    sum_of_a_rank(f, 48);
    sum_of_a_rank(f, 56);
    sum_of_a_rank(g, 0);
    sum_of_a_rank(g, 8);
    sum_of_a_rank(g, 16);
    sum_of_a_rank(g, 24);
    sum_of_a_rank(g, 32);
    sum_of_a_rank(g, 40);
    sum_of_a_rank(g, 48);
    sum_of_a_rank(g, 56);
    assert forall|i: int| 0 <= i < 64 implies #[trigger] g(i) == f(
        if i < 8 {
            i + 56
        } else if i < 16 {
            i + 40
        } else if i < 24 {
            i + 24
        } else if i < 32 {
            i + 8
        } else if i < 40 {
            i - 8
        } else if i < 48 {
            i - 24
        } else if i < 56 {
            i - 40
        } else {
            i - 56
        },
    ) by {
        assert(g(i) == f(flip_square(i)));
    }
    assert(g(0) == f(56) && g(1) == f(57) && g(2) == f(58) && g(3) == f(59) && g(4) == f(60)
        && g(5) == f(61) && g(6) == f(62) && g(7) == f(63));
    assert(g(8) == f(48) && g(9) == f(49) && g(10) == f(50) && g(11) == f(51) && g(12) == f(52)
        && g(13) == f(53) && g(14) == f(54) && g(15) == f(55));
    assert(g(16) == f(40) && g(17) == f(41) && g(18) == f(42) && g(19) == f(43) && g(20) == f(44)
        && g(21) == f(45) && g(22) == f(46) && g(23) == f(47));
    assert(g(24) == f(32) && g(25) == f(33) && g(26) == f(34) && g(27) == f(35) && g(28) == f(36)
        && g(29) == f(37) && g(30) == f(38) && g(31) == f(39));
    assert(g(32) == f(24) && g(33) == f(25) && g(34) == f(26) && g(35) == f(27) && g(36) == f(28)
        && g(37) == f(29) && g(38) == f(30) && g(39) == f(31));
    assert(g(40) == f(16) && g(41) == f(17) && g(42) == f(18) && g(43) == f(19) && g(44) == f(20)
        && g(45) == f(21) && g(46) == f(22) && g(47) == f(23));
    assert(g(48) == f(8) && g(49) == f(9) && g(50) == f(10) && g(51) == f(11) && g(52) == f(12)
        && g(53) == f(13) && g(54) == f(14) && g(55) == f(15));
    assert(g(56) == f(0) && g(57) == f(1) && g(58) == f(2) && g(59) == f(3) && g(60) == f(4)
        && g(61) == f(5) && g(62) == f(6) && g(63) == f(7));
}

/// In the colour-mirrored position each side has the material, the pawns
/// and the placement score that the other side had, and gives check where
/// the other did.
pub proof fn flipped_exchanges_sides(view: BoardView, side: Side)
    ensures
        material(flipped(view), side) == material(view, side.other()),
        pawn_count(flipped(view), side) == pawn_count(view, side.other()),
        placement(flipped(view), side) == placement(view, side.other()),
        gives_check(flipped(view), side) == gives_check(view, side.other()),
{
    let turned = flipped(view);
    let other = side.other();
    assert(other.other() == side);
    assert forall|square: int| 0 <= square < 64 implies 0 <= flip_square(square) < 64
        && flip_square(flip_square(square)) == square && #[trigger] turned.squares[square]
        == match view.squares[flip_square(square)] {
        Some(occupant) => Some(Occupant { kind: occupant.kind, side: occupant.side.other() }),
        None => None,
    } by {}

    material_as_sum(view, other, 64);
    material_as_sum(turned, side, 64);
    sum_with_ranks_exchanged(
        |square: int| square_material(view, other, square),
        |square: int| square_material(turned, side, square),
    );

    pawns_as_sum(view, other, 64);
    pawns_as_sum(turned, side, 64);
    sum_with_ranks_exchanged(
        |square: int| square_pawn(view, other, square),
        |square: int| square_pawn(turned, side, square),
    );

    placement_as_sum(view, other, 64);
    placement_as_sum(turned, side, 64);
    assert forall|square: int| 0 <= square < 64 implies square_placement(turned, side, square)
        == square_placement(view, other, flip_square(square)) by {
        assert(table_index(side, square) == table_index(other, flip_square(square)));
    }
    sum_with_ranks_exchanged(
        |square: int| square_placement(view, other, square),
        |square: int| square_placement(turned, side, square),
    );

    if gives_check(view, other) {
        let square = choose|square: int|
            0 <= square < 64 && #[trigger] view.checkers.contains(square) && view.side_at(square)
                == Some(other);
        assert(turned.checkers.contains(flip_square(square)));
        assert(turned.side_at(flip_square(square)) == Some(side));
    }
    if gives_check(turned, side) {
        let square = choose|square: int|
            0 <= square < 64 && #[trigger] turned.checkers.contains(square) && turned.side_at(
                square,
            ) == Some(side);
        assert(view.checkers.contains(flip_square(square)));
        assert(view.side_at(flip_square(square)) == Some(other));
    }
}

/// The evaluation is antisymmetric in the colours: a position and its
/// colour-mirrored counterpart have opposite evaluations.
pub proof fn evaluation_of_flipped_is_negated(view: BoardView)
    ensures
        evaluation(flipped(view)) == -evaluation(view),
{
    flipped_exchanges_sides(view, Side::White);
    flipped_exchanges_sides(view, Side::Black);
}

/// Do two positions show the same to the evaluator? They do where the same
/// pieces stand on the 64 squares and the same of them give check.
pub open spec fn look_alike(first: BoardView, second: BoardView) -> bool {
    forall|square: int|
        0 <= square < 64 ==> #[trigger] first.squares[square] == second.squares[square] && (
        first.checkers.contains(square) <==> second.checkers.contains(square))
}

/// Is `mirror` a colour-mirrored counterpart of `view`? It is where every
/// piece of `view` stands in `mirror` on the opposite rank of its file, in
/// the other colour, gives check there where it gave check, and the same
/// player is to move. What else the two record does not matter.
pub open spec fn is_colour_mirror(view: BoardView, mirror: BoardView) -> bool {
    &&& mirror.side_to_move == view.side_to_move
    &&& look_alike(mirror, flipped(view))
}

proof fn sums_agree_on_equal_squares(first: BoardView, second: BoardView, side: Side, limit: int)
    requires
        look_alike(first, second),
        limit <= 64,
    ensures
        material_below(first, side, limit) == material_below(second, side, limit),
        pawns_below(first, side, limit) == pawns_below(second, side, limit),
        pawn_count(first, side) == pawn_count(second, side) ==> placement_below(
            first,
            side,
            limit,
        ) == placement_below(second, side, limit),
    decreases limit,
{
    if limit > 0 {
        sums_agree_on_equal_squares(first, second, side, limit - 1);
        assert(first.squares[limit - 1] == second.squares[limit - 1]);
    }
}

/// Positions that look alike give each side the same score.
pub proof fn side_scores_of_look_alikes(first: BoardView, second: BoardView, side: Side)
    requires
        look_alike(first, second),
    ensures
        material(first, side) == material(second, side),
        pawn_count(first, side) == pawn_count(second, side),
        placement(first, side) == placement(second, side),
        gives_check(first, side) == gives_check(second, side),
        side_score(first, side) == side_score(second, side),
{
    sums_agree_on_equal_squares(first, second, side, 64);
    let other = side.other();
    assert(gives_check(first, side) == gives_check(second, side)) by {
        checks_of_look_alikes(first, second, side);
    }
    assert(gives_check(first, other) == gives_check(second, other)) by {
        checks_of_look_alikes(first, second, other);
    }
}

proof fn checks_of_look_alikes(first: BoardView, second: BoardView, side: Side)
    requires
        look_alike(first, second),
    ensures
        gives_check(first, side) == gives_check(second, side),
{
    if gives_check(first, side) {
        let square = choose|square: int|
            0 <= square < 64 && #[trigger] first.checkers.contains(square) && first.side_at(
                square,
            ) == Some(side);
        assert(first.squares[square] == second.squares[square]);
        assert(second.checkers.contains(square));
    }
    if gives_check(second, side) {
        let square = choose|square: int|
            0 <= square < 64 && #[trigger] second.checkers.contains(square) && second.side_at(
                square,
            ) == Some(side);
        assert(first.squares[square] == second.squares[square]);
        assert(first.checkers.contains(square));
    }
}

/// The evaluation reads the pieces on the squares, the pieces that give
/// check and the player to move, and nothing else: two positions that look
/// alike and have the same player to move evaluate alike.
pub proof fn evaluation_of_look_alikes(first: BoardView, second: BoardView)
    requires
        look_alike(first, second),
        first.side_to_move == second.side_to_move,
    ensures
        evaluation(first) == evaluation(second),
{
    side_scores_of_look_alikes(first, second, Side::White);
    side_scores_of_look_alikes(first, second, Side::Black);
}

/// The evaluation is antisymmetric in the colours: a position and any
/// colour-mirrored counterpart of it have opposite evaluations.
pub proof fn evaluation_of_colour_mirror_is_negated(view: BoardView, mirror: BoardView)
    requires
        is_colour_mirror(view, mirror),
    ensures
        evaluation(mirror) == -evaluation(view),
{
    evaluation_of_flipped_is_negated(view);
    evaluation_of_look_alikes(mirror, flipped(view));
}

/// The evaluation is antisymmetric in the point of view: handing the move to
/// the other player negates it.
pub proof fn evaluation_from_other_side_is_negated(view: BoardView)
    ensures
        evaluation(with_other_to_move(view)) == -evaluation(view),
{
    let swapped = with_other_to_move(view);
    assert(look_alike(swapped, view));
    side_scores_of_look_alikes(swapped, view, Side::White);
    side_scores_of_look_alikes(swapped, view, Side::Black);
}

/// The material worth of a piece.
pub fn value_of(kind: PieceKind) -> (value: i32)
    ensures
        value == piece_value(kind),
{
    match kind {
        PieceKind::Pawn => PAWN_VALUE,
        PieceKind::Knight => KNIGHT_VALUE,
        PieceKind::Bishop => BISHOP_VALUE,
        PieceKind::Rook => ROOK_VALUE,
        PieceKind::Queen => QUEEN_VALUE,
        PieceKind::King => 0,
    }
}

/// The material of `color` on `board`.
pub fn count_material(color: Side, board: &chess::Board) -> (total: i32)
    requires
        sane_of(board_view(*board)),
    ensures
        total == material(board_view(*board), color),
        0 <= total <= 900 * piece_count(board_view(*board), color),
        0 <= total <= 57600,
{
    let ghost view = board_view(*board);
    let mut total: i32 = 0;
    let mut square: u8 = 0;
    while square < 64
        invariant
            square <= 64,
            view == board_view(*board),
            sane_of(view),
            total == material_below(view, color, square as int),
            0 <= pieces_below(view, color, square as int) <= square,
            0 <= total <= 900 * pieces_below(view, color, square as int),
        decreases 64 - square,
    {
        if let Some(kind) = piece_on(board, square) {
            if let Some(side) = color_on(board, square) {
                if side == color {
                    total = total + value_of(kind);
                }
            }
        }
        square = square + 1;
    }
    total
}

/// The number of pawns of `color` on `board`.
pub fn count_pawns(color: Side, board: &chess::Board) -> (count: u8)
    requires
        sane_of(board_view(*board)),
    ensures
        count == pawn_count(board_view(*board), color),
{
    let ghost view = board_view(*board);
    let mut count: u8 = 0;
    let mut square: u8 = 0;
    while square < 64
        invariant
            square <= 64,
            view == board_view(*board),
            sane_of(view),
            count == pawns_below(view, color, square as int),
            count <= square,
        decreases 64 - square,
    {
        if let Some(kind) = piece_on(board, square) {
            if let Some(side) = color_on(board, square) {
                if side == color && kind == PieceKind::Pawn {
                    count = count + 1;
                }
            }
        }
        square = square + 1;
    }
    count
}

/// Does a piece of `color` give check on `board`?
pub fn get_checkers(color: Side, board: &chess::Board) -> (found: bool)
    requires
        sane_of(board_view(*board)),
    ensures
        found == gives_check(board_view(*board), color),
{
    let ghost view = board_view(*board);
    let bits = checkers(board);
    let mut square: u8 = 0;
    while square < 64
        invariant
            square <= 64,
            view == board_view(*board),
            sane_of(view),
            forall|s: int|
                0 <= s < 64 ==> (bit_is_set(bits, s) <==> #[trigger] view.checkers.contains(s)),
            forall|s: int|
                0 <= s < square ==> !(#[trigger] view.checkers.contains(s) && view.side_at(s)
                    == Some(color)),
        decreases 64 - square,
    {
        if (bits >> (square as u64)) & 1 == 1 {
            if let Some(side) = color_on(board, square) {
                if side == color {
                    assert(view.checkers.contains(square as int));
                    return true;
                }
            }
        }
        square = square + 1;
    }
    false
}

/// The entry of the piece-square table for `kind` at `index`.
pub fn table_entry(kind: PieceKind, index: usize) -> (value: i32)
    requires
        index < 64,
    ensures
        value == table_value(kind, index as int),
        -50 <= value <= 50,
{
    match kind {
        PieceKind::Pawn => PAWNS[index],
        PieceKind::Knight => KNIGHTS[index],
        PieceKind::Bishop => BISHOPS[index],
        PieceKind::Rook => ROOKS[index],
        PieceKind::Queen => QUEENS[index],
        PieceKind::King => KING_MIDDLE[index],
    }
}

/// The placement score of `color` on `board`.
pub fn evaluate_tables(color: Side, board: &chess::Board) -> (score: i32)
    requires
        sane_of(board_view(*board)),
    ensures
        score == placement(board_view(*board), color),
        -50 * piece_count(board_view(*board), color) <= score <= 50 * piece_count(
            board_view(*board),
            color,
        ),
        -3200 <= score <= 3200,
{
    let ghost view = board_view(*board);
    let pawns = count_pawns(color, board);
    let mut score: i32 = 0;
    let mut square: u8 = 0;
    while square < 64
        invariant
            square <= 64,
            view == board_view(*board),
            sane_of(view),
            pawns == pawn_count(view, color),
            score == placement_below(view, color, square as int),
            0 <= pieces_below(view, color, square as int) <= square,
            -50 * pieces_below(view, color, square as int) <= score <= 50 * pieces_below(
                view,
                color,
                square as int,
            ),
        decreases 64 - square,
    {
        if let Some(kind) = piece_on(board, square) {
            if let Some(side) = color_on(board, square) {
                if side == color {
                    let index: usize = match color {
                        Side::Black => square as usize,
                        Side::White => (7 - square as usize / 8) * 8 + square as usize % 8,
                    };
                    if kind != PieceKind::King || pawns < 2 {
                        score = score + table_entry(kind, index);
                    }
                }
            }
        }
        square = square + 1;
    }
    score
}

/// The static evaluation of `board`, from the point of view of the player to
/// move: positive where that player stands better.
pub fn evaluate(board: &chess::Board) -> (score: i32)
    requires
        sane_of(board_view(*board)),
    ensures
        score == evaluation(board_view(*board)),
        -EVAL_LIMIT <= score <= EVAL_LIMIT,
{
    let mut white_eval = count_material(Side::White, board);
    white_eval = white_eval + evaluate_tables(Side::White, board);
    let mut black_eval = count_material(Side::Black, board);
    black_eval = black_eval + evaluate_tables(Side::Black, board);
    if get_checkers(Side::White, board) {
        black_eval = black_eval - CHECK_PENALTY;
    }
    if get_checkers(Side::Black, board) {
        white_eval = white_eval - CHECK_PENALTY;
    }
    match side_to_move(board) {
        Side::White => white_eval - black_eval,
        Side::Black => black_eval - white_eval,
    }
}

} // verus!
