//! What the quiescence search computes: the minimax value of the tree of
//! captures, cut to the search window. Alpha-beta pruning skips captures; it
//! does not change that value.

use vstd::prelude::*;
use crate::evaluation::evaluation;
use crate::position::{capture_moves_of, captures_are_the_captures, is_capture, legal_moves_of};
use crate::position::{successor, BoardView, Move};
use crate::searcher::{quiesce, quiesce_from, SearchState};

verus! {

/// `value`, but no less than `alpha` and no more than `beta`.
pub open spec fn clamped(value: int, alpha: int, beta: int) -> int {
    if value <= alpha {
        alpha
    } else if value >= beta {
        beta
    } else {
        value
    }
}

/// The value of a position for the player to move when both sides may stand
/// pat or capture, in lines of at most `budget` captures: the better of the
/// static evaluation and the best capture.
pub open spec fn capture_value(view: BoardView, budget: nat) -> int
    decreases budget, 1int, 0nat,
{
    if budget == 0 {
        evaluation(view)
    } else {
        best_capture(view, capture_moves_of(view), 0, budget, evaluation(view))
    }
}

/// The best of `best` and of what the captures from number `next` on are
/// worth: a capture is worth what the position it leads to is worth for the
/// opponent, negated.
pub open spec fn best_capture(
    view: BoardView,
    moves: Seq<Move>,
    next: nat,
    budget: nat,
    best: int,
) -> int
    decreases budget, 0int, moves.len() - next,
{
    if next >= moves.len() || budget == 0 {
        best
    } else {
        let worth = -capture_value(successor(view, moves[next as int]), (budget - 1) as nat);
        best_capture(
            view,
            moves,
            next + 1,
            budget,
            if worth > best {
                worth
            } else {
                best
            },
        )
    }
}

/// The best capture is no worse than what was there before.
pub proof fn best_capture_is_no_worse(
    view: BoardView,
    moves: Seq<Move>,
    next: nat,
    budget: nat,
    best: int,
)
    ensures
        best_capture(view, moves, next, budget, best) >= best,
    decreases moves.len() - next,
{
    if next < moves.len() && budget > 0 {
        let worth = -capture_value(successor(view, moves[next as int]), (budget - 1) as nat);
        best_capture_is_no_worse(
            view,
            moves,
            next + 1,
            budget,
            if worth > best {
                worth
            } else {
                best
            },
        );
    }
}

/// Nobody has to capture: a position is worth at least its static evaluation.
pub proof fn capture_value_is_at_least_the_evaluation(view: BoardView, budget: nat)
    ensures
        capture_value(view, budget) >= evaluation(view),
{
    if budget > 0 {
        best_capture_is_no_worse(view, capture_moves_of(view), 0, budget, evaluation(view));
    }
}

/// What a move is worth to the player who makes it, in lines of at most
/// `budget` captures: what the position it leads to is worth for the
/// opponent with one capture less, negated.
pub open spec fn worth_of(view: BoardView, mv: Move, budget: nat) -> int {
    -capture_value(successor(view, mv), (budget - 1) as nat)
}

proof fn best_capture_covers(
    view: BoardView,
    moves: Seq<Move>,
    next: nat,
    budget: nat,
    best: int,
    at: int,
)
    requires
        next <= at < moves.len(),
        budget > 0,
    ensures
        best_capture(view, moves, next, budget, best) >= worth_of(view, moves[at], budget),
    decreases moves.len() - next,
{
    let worth = worth_of(view, moves[next as int], budget);
    let better = if worth > best {
        worth
    } else {
        best
    };
    if next == at {
        best_capture_is_no_worse(view, moves, next + 1, budget, better);
    } else {
        best_capture_covers(view, moves, next + 1, budget, better, at);
    }
}

proof fn best_capture_is_attained(
    view: BoardView,
    moves: Seq<Move>,
    next: nat,
    budget: nat,
    best: int,
)
    ensures
        best_capture(view, moves, next, budget, best) == best || exists|at: int|
            next <= at < moves.len() && best_capture(view, moves, next, budget, best)
                == #[trigger] worth_of(view, moves[at], budget),
    decreases moves.len() - next,
{
    if next < moves.len() && budget > 0 {
        let worth = worth_of(view, moves[next as int], budget);
        let better = if worth > best {
            worth
        } else {
            best
        };
        best_capture_is_attained(view, moves, next + 1, budget, better);
        let value = best_capture(view, moves, next, budget, best);
        if value != best {
            if value == better {
                assert(value == worth_of(view, moves[next as int], budget));
            } else {
                let at = choose|at: int|
                    next + 1 <= at < moves.len() && value == #[trigger] worth_of(
                        view,
                        moves[at],
                        budget,
                    );
                assert(next <= at < moves.len());
            }
        }
    }
}

/// Every capture counts: a position is worth at least what any legal move
/// that captures is worth, a capture in passing included.
pub proof fn every_capture_counts(view: BoardView, budget: nat, mv: Move)
    requires
        budget > 0,
        legal_moves_of(view).contains(mv),
        is_capture(view, mv),
    ensures
        capture_value(view, budget) >= worth_of(view, mv, budget),
{
    captures_are_the_captures(view, legal_moves_of(view));
    let moves = capture_moves_of(view);
    assert(moves.contains(mv));
    let at = choose|at: int| 0 <= at < moves.len() && moves[at] == mv;
    best_capture_covers(view, moves, 0, budget, evaluation(view), at);
}

/// Nothing but captures counts: a position is worth its static evaluation,
/// unless a legal move that captures is worth more; then it is worth what
/// the best of them is worth.
pub proof fn only_captures_count(view: BoardView, budget: nat)
    ensures
        capture_value(view, budget) == evaluation(view) || exists|mv: Move|
            legal_moves_of(view).contains(mv) && is_capture(view, mv) && capture_value(
                view,
                budget,
            ) == #[trigger] worth_of(view, mv, budget),
{
    if budget > 0 {
        captures_are_the_captures(view, legal_moves_of(view));
        let moves = capture_moves_of(view);
        best_capture_is_attained(view, moves, 0, budget, evaluation(view));
        if capture_value(view, budget) != evaluation(view) {
            let at = choose|at: int|
                0 <= at < moves.len() && capture_value(view, budget) == #[trigger] worth_of(
                    view,
                    moves[at],
                    budget,
                );
            assert(legal_moves_of(view).contains(moves[at]) && is_capture(view, moves[at]));
        }
    }
}

/// The quiescence search returns the minimax value of the tree of captures,
/// cut to its window: the value itself where it lies inside the window, and
/// the bound that it lies beyond where it does not.
pub proof fn quiescence_search_is_minimax(
    state: SearchState,
    view: BoardView,
    budget: nat,
    alpha: int,
    beta: int,
)
    requires
        alpha < beta,
    ensures
        quiesce(state, view, budget, alpha, beta).value == clamped(
            capture_value(view, budget),
            alpha,
            beta,
        ),
    decreases budget, 1int, 0nat,
{
    let stand_pat = evaluation(view);
    capture_value_is_at_least_the_evaluation(view, budget);
    if stand_pat < beta && budget > 0 {
        let floor = if stand_pat > alpha {
            stand_pat
        } else {
            alpha
        };
        captures_are_minimax(
            state.count_quiescence_node(),
            view,
            capture_moves_of(view),
            0,
            budget,
            floor,
            beta,
            stand_pat,
        );
    }
}

/// The same, from capture number `next` on: `alpha` is the lower bound that
/// the captures before have left, and `best` what the best of them was
/// worth, where that is no more than `alpha`.
proof fn captures_are_minimax(
    state: SearchState,
    view: BoardView,
    moves: Seq<Move>,
    next: nat,
    budget: nat,
    alpha: int,
    beta: int,
    best: int,
)
    requires
        alpha < beta,
        best <= alpha,
        budget > 0,
    ensures
        quiesce_from(state, view, moves, next, budget, alpha, beta).value == clamped(
            best_capture(view, moves, next, budget, best),
            alpha,
            beta,
        ),
    decreases budget, 0int, moves.len() - next,
{
    if next < moves.len() {
        let after = successor(view, moves[next as int]);
        let less = (budget - 1) as nat;
        quiescence_search_is_minimax(state, after, less, -beta, -alpha);
        let child = quiesce(state, after, less, -beta, -alpha);
        let worth = -capture_value(after, less);
        let score = -child.value;
        assert(score == clamped(worth, alpha, beta));
        let better = if worth > best {
            worth
        } else {
            best
        };
        best_capture_is_no_worse(view, moves, next + 1, budget, better);
        if score >= beta {
        } else if score > alpha {
            captures_are_minimax(child.state, view, moves, next + 1, budget, score, beta, better);
        } else {
            captures_are_minimax(child.state, view, moves, next + 1, budget, alpha, beta, better);
        }
    }
}

} // verus!
