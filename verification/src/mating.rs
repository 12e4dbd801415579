//! Why the search sees a mate in one: the move that mates scores one ply
//! short of an immediate mate, and nothing scores more.

use vstd::prelude::*;
use crate::entry::Entry;
use crate::evaluation::{evaluation, evaluation_is_bounded};
use crate::minimax::quiescence_search_is_minimax;
use crate::move_ordering::{order_is_a_sorted_rearrangement, order_of};
use crate::position::{capture_moves_of, fingerprint_of, legal_moves_of, status_of, successor};
use crate::position::{BoardView, Move, Status};
use crate::searcher::{lookup, quiesce, quiesce_from, scores_are_in_range, search, search_from};
use crate::searcher::{narrowed_alpha, narrowed_beta, score_for_table, stored_move};
use crate::searcher::{EvalType, SearchState};
use crate::searcher::{IMMEDIATE_MATE_SCORE, MAX_CAPTURE_DEPTH, MAX_MATE_DEPTH};
use crate::table::{probe_after_store, probe_slots, slot_of, store_slots};

verus! {

/// Every position with the fingerprint `hash` is one in which the game has
/// ended. The search stores nothing for such a position.
pub open spec fn fingerprint_is_final(hash: u64) -> bool {
    forall|view: BoardView| #[trigger] fingerprint_of(view) == hash ==> status_of(view)
        != Status::Ongoing
}

/// The table has slots, holds no score beyond the mate scores, and holds
/// nothing under `hash`.
pub open spec fn table_is_silent_on(slots: Seq<(u64, Option<Entry>)>, hash: u64) -> bool {
    &&& slots.len() > 0
    &&& scores_are_in_range(slots)
    &&& probe_slots(slots, hash) == None::<Entry>
}

/// The quiescence search touches nothing but the counters.
pub proof fn quiescence_keeps_the_table(
    state: SearchState,
    view: BoardView,
    budget: nat,
    alpha: int,
    beta: int,
)
    ensures
        quiesce(state, view, budget, alpha, beta).state == (SearchState {
            stats: quiesce(state, view, budget, alpha, beta).state.stats,
            ..state
        }),
    decreases budget, 1int, 0nat,
{
    if evaluation(view) < beta && budget > 0 {
        let floor = if evaluation(view) > alpha {
            evaluation(view)
        } else {
            alpha
        };
        captures_keep_the_table(
            state.count_quiescence_node(),
            view,
            capture_moves_of(view),
            0,
            budget,
            floor,
            beta,
        );
    }
}

proof fn captures_keep_the_table(
    state: SearchState,
    view: BoardView,
    moves: Seq<Move>,
    next: nat,
    budget: nat,
    alpha: int,
    beta: int,
)
    ensures
        quiesce_from(state, view, moves, next, budget, alpha, beta).state == (SearchState {
            stats: quiesce_from(state, view, moves, next, budget, alpha, beta).state.stats,
            ..state
        }),
    decreases budget, 0int, moves.len() - next,
{
    if next < moves.len() && budget > 0 {
        let after = successor(view, moves[next as int]);
        let less = (budget - 1) as nat;
        quiescence_keeps_the_table(state, after, less, -beta, -alpha);
        let child = quiesce(state, after, less, -beta, -alpha);
        let score = -child.value;
        if score >= beta {
        } else if score > alpha {
            captures_keep_the_table(child.state, view, moves, next + 1, budget, score, beta);
        } else {
            captures_keep_the_table(child.state, view, moves, next + 1, budget, alpha, beta);
        }
    }
}

/// Storing a score within the mate scores under another fingerprint leaves
/// a silent table silent.
proof fn store_keeps_silence(
    slots: Seq<(u64, Option<Entry>)>,
    silent: u64,
    hash: u64,
    entry: Entry,
)
    requires
        table_is_silent_on(slots, silent),
        hash != silent,
        -IMMEDIATE_MATE_SCORE <= entry.value <= IMMEDIATE_MATE_SCORE,
    ensures
        table_is_silent_on(store_slots(slots, hash, entry), silent),
{
    let stored = store_slots(slots, hash, entry);
    let at = slot_of(slots.len(), hash);
    assert(0 <= at < slots.len());
    assert forall|i: int| 0 <= i < stored.len() implies match (#[trigger] stored[i]).1 {
        Some(found) => -IMMEDIATE_MATE_SCORE <= found.value <= IMMEDIATE_MATE_SCORE,
        None => true,
    } by {
        if i != at {
            assert(stored[i] == slots[i]);
        }
    }
    probe_after_store(slots, hash, entry, silent);
}

/// A search leaves a silent table silent, and scores within what a mate can
/// score at its distance from the root, unless its lower bound was above
/// that already.
pub proof fn search_keeps_silence(
    state: SearchState,
    quiescence: bool,
    view: BoardView,
    depth: nat,
    ply: int,
    alpha: int,
    beta: int,
    silent: u64,
)
    requires
        table_is_silent_on(state.slots, silent),
        fingerprint_is_final(silent),
        0 <= ply,
        ply + depth <= MAX_MATE_DEPTH,
        alpha < beta,
    ensures
        table_is_silent_on(search(state, quiescence, view, depth, ply, alpha, beta).state.slots, silent),
        search(state, quiescence, view, depth, ply, alpha, beta).value >= -IMMEDIATE_MATE_SCORE
            + ply,
        search(state, quiescence, view, depth, ply, alpha, beta).value <= IMMEDIATE_MATE_SCORE
            - ply || search(state, quiescence, view, depth, ply, alpha, beta).value <= alpha,
    decreases depth, 1int, 0nat,
{
    let low = narrowed_alpha(alpha, ply);
    let high = narrowed_beta(beta, ply);
    let hash = fingerprint_of(view);
    if ply > 0 && status_of(view) == Status::Stalemate {
    } else if low >= high {
    } else {
        match lookup(state.slots, hash, depth as int, ply, low, high) {
            Some(score) => {
                let at = slot_of(state.slots.len(), hash);
                assert(0 <= at < state.slots.len());
                assert(state.slots[at].1 == probe_slots(state.slots, hash));
            },
            None => {
                if depth == 0 {
                    if quiescence {
                        quiescence_keeps_the_table(
                            state,
                            view,
                            MAX_CAPTURE_DEPTH as nat,
                            low,
                            high,
                        );
                        quiescence_search_is_minimax(
                            state,
                            view,
                            MAX_CAPTURE_DEPTH as nat,
                            low,
                            high,
                        );
                    } else {
                        evaluation_is_bounded(view);
                    }
                } else if status_of(view) == Status::Checkmate {
                } else if status_of(view) == Status::Stalemate {
                } else {
                    assert(status_of(view) == Status::Ongoing);
                    moves_keep_silence(
                        state,
                        quiescence,
                        view,
                        order_of(view, stored_move(state.slots, hash), legal_moves_of(view)),
                        0,
                        depth,
                        ply,
                        low,
                        high,
                        None,
                        silent,
                    );
                }
            },
        }
    }
}

/// The same, from move number `next` on. The result lies in the window.
pub proof fn moves_keep_silence(
    state: SearchState,
    quiescence: bool,
    view: BoardView,
    moves: Seq<Move>,
    next: nat,
    depth: nat,
    ply: int,
    alpha: int,
    beta: int,
    best: Option<Move>,
    silent: u64,
)
    requires
        table_is_silent_on(state.slots, silent),
        fingerprint_is_final(silent),
        status_of(view) == Status::Ongoing,
        depth > 0,
        0 <= ply,
        ply + depth <= MAX_MATE_DEPTH,
        -IMMEDIATE_MATE_SCORE + ply <= alpha < beta <= IMMEDIATE_MATE_SCORE - ply,
    ensures
        table_is_silent_on(
            search_from(state, quiescence, view, moves, next, depth, ply, alpha, beta, best).state.slots,
            silent,
        ),
        alpha <= search_from(
            state,
            quiescence,
            view,
            moves,
            next,
            depth,
            ply,
            alpha,
            beta,
            best,
        ).value <= beta,
    decreases depth, 0int, moves.len() - next,
{
    let hash = fingerprint_of(view);
    assert(hash != silent);
    if next >= moves.len() {
        let entry = Entry {
            value: score_for_table(alpha, ply) as i32,
            move_: best,
            depth: depth as u8,
            node_type: if best is Some {
                EvalType::Exact
            } else {
                EvalType::UpperBound
            },
        };
        store_keeps_silence(state.slots, silent, hash, entry);
    } else {
        let mv = moves[next as int];
        search_keeps_silence(
            state,
            quiescence,
            successor(view, mv),
            (depth - 1) as nat,
            ply + 1,
            -beta,
            -alpha,
            silent,
        );
        let child = search(
            state,
            quiescence,
            successor(view, mv),
            (depth - 1) as nat,
            ply + 1,
            -beta,
            -alpha,
        );
        let score = -child.value;
        let visited = child.state.count_node();
        if score >= beta {
            let entry = Entry {
                value: score_for_table(score, ply) as i32,
                move_: Some(mv),
                depth: depth as u8,
                node_type: EvalType::LowerBound,
            };
            store_keeps_silence(visited.slots, silent, hash, entry);
        } else if score > alpha {
            let noted = if ply == 0 {
                visited.note_best(Some(mv), score)
            } else {
                visited
            };
            moves_keep_silence(
                noted,
                quiescence,
                view,
                moves,
                next + 1,
                depth,
                ply,
                score,
                beta,
                Some(mv),
                silent,
            );
        } else {
            moves_keep_silence(
                visited,
                quiescence,
                view,
                moves,
                next + 1,
                depth,
                ply,
                alpha,
                beta,
                best,
                silent,
            );
        }
    }
}

/// Once a move has scored one ply short of an immediate mate, the moves
/// after it change nothing in the result.
proof fn nothing_beats_a_mate_in_one(
    state: SearchState,
    quiescence: bool,
    view: BoardView,
    moves: Seq<Move>,
    next: nat,
    depth: nat,
    ply: int,
    best: Option<Move>,
    silent: u64,
)
    requires
        table_is_silent_on(state.slots, silent),
        fingerprint_is_final(silent),
        depth > 0,
        0 <= ply,
        ply + depth <= MAX_MATE_DEPTH,
    ensures
        search_from(
            state,
            quiescence,
            view,
            moves,
            next,
            depth,
            ply,
            IMMEDIATE_MATE_SCORE - ply - 1,
            IMMEDIATE_MATE_SCORE - ply,
            best,
        ).value == IMMEDIATE_MATE_SCORE - ply - 1,
    decreases moves.len() - next,
{
    let alpha = IMMEDIATE_MATE_SCORE - ply - 1;
    let beta = IMMEDIATE_MATE_SCORE - ply;
    if next < moves.len() {
        let mv = moves[next as int];
        search_keeps_silence(
            state,
            quiescence,
            successor(view, mv),
            (depth - 1) as nat,
            ply + 1,
            -beta,
            -alpha,
            silent,
        );
        let child = search(
            state,
            quiescence,
            successor(view, mv),
            (depth - 1) as nat,
            ply + 1,
            -beta,
            -alpha,
        );
        nothing_beats_a_mate_in_one(
            child.state.count_node(),
            quiescence,
            view,
            moves,
            next + 1,
            depth,
            ply,
            best,
            silent,
        );
    }
}

/// The search of the moves from number `next` on comes to one ply short of
/// an immediate mate, where the move number `mating` among them mates.
proof fn moves_reach_the_mate(
    state: SearchState,
    quiescence: bool,
    view: BoardView,
    moves: Seq<Move>,
    next: nat,
    mating: nat,
    depth: nat,
    ply: int,
    alpha: int,
    best: Option<Move>,
)
    requires
        next <= mating < moves.len(),
        status_of(successor(view, moves[mating as int])) == Status::Checkmate,
        fingerprint_is_final(fingerprint_of(successor(view, moves[mating as int]))),
        table_is_silent_on(state.slots, fingerprint_of(successor(view, moves[mating as int]))),
        status_of(view) == Status::Ongoing,
        depth >= 2,
        0 <= ply,
        ply + depth <= MAX_MATE_DEPTH,
        -IMMEDIATE_MATE_SCORE + ply <= alpha < IMMEDIATE_MATE_SCORE - ply,
    ensures
        search_from(
            state,
            quiescence,
            view,
            moves,
            next,
            depth,
            ply,
            alpha,
            IMMEDIATE_MATE_SCORE - ply,
            best,
        ).value == IMMEDIATE_MATE_SCORE - ply - 1,
    decreases moves.len() - next,
{
    let beta = IMMEDIATE_MATE_SCORE - ply;
    let mated = successor(view, moves[mating as int]);
    let silent = fingerprint_of(mated);
    let mv = moves[next as int];
    search_keeps_silence(
        state,
        quiescence,
        successor(view, mv),
        (depth - 1) as nat,
        ply + 1,
        -beta,
        -alpha,
        silent,
    );
    let child = search(
        state,
        quiescence,
        successor(view, mv),
        (depth - 1) as nat,
        ply + 1,
        -beta,
        -alpha,
    );
    let score = -child.value;
    let visited = child.state.count_node();
    assert(score < beta);
    if next == mating {
        assert(score == IMMEDIATE_MATE_SCORE - ply - 1);
        let noted = if score > alpha && ply == 0 {
            visited.note_best(Some(mv), score)
        } else {
            visited
        };
        nothing_beats_a_mate_in_one(
            noted,
            quiescence,
            view,
            moves,
            next + 1,
            depth,
            ply,
            if score > alpha {
                Some(mv)
            } else {
                best
            },
            silent,
        );
    } else if score > alpha {
        let noted = if ply == 0 {
            visited.note_best(Some(mv), score)
        } else {
            visited
        };
        moves_reach_the_mate(
            noted,
            quiescence,
            view,
            moves,
            next + 1,
            mating,
            depth,
            ply,
            score,
            Some(mv),
        );
    } else {
        moves_reach_the_mate(
            visited,
            quiescence,
            view,
            moves,
            next + 1,
            mating,
            depth,
            ply,
            alpha,
            best,
        );
    }
}

/// A position in which a move mates scores one ply short of an immediate
/// mate at its distance from the root: the mated position, one ply further
/// on, scores as a mate against its player, and nothing scores more.
///
/// This holds of a search of at least two plies whose window reaches up to
/// the mate scores and which the table does not answer, where the table
/// holds nothing under the fingerprint of the mated position, and no
/// position in which the game goes on has that fingerprint.
pub proof fn mate_in_one_scores_one_ply_short_of_mate(
    state: SearchState,
    quiescence: bool,
    view: BoardView,
    depth: nat,
    ply: int,
    alpha: int,
    beta: int,
    mating: Move,
)
    requires
        legal_moves_of(view).contains(mating),
        status_of(successor(view, mating)) == Status::Checkmate,
        fingerprint_is_final(fingerprint_of(successor(view, mating))),
        table_is_silent_on(state.slots, fingerprint_of(successor(view, mating))),
        depth >= 2,
        0 <= ply,
        ply + depth <= MAX_MATE_DEPTH,
        alpha < IMMEDIATE_MATE_SCORE - ply <= beta,
        lookup(
            state.slots,
            fingerprint_of(view),
            depth as int,
            ply,
            narrowed_alpha(alpha, ply),
            narrowed_beta(beta, ply),
        ) == None::<int>,
    ensures
        search(state, quiescence, view, depth, ply, alpha, beta).value == IMMEDIATE_MATE_SCORE - (
        ply + 1),
{
    broadcast use vstd::seq_lib::group_to_multiset_ensures;

    let hash = fingerprint_of(view);
    let remembered = stored_move(state.slots, hash);
    let moves = order_of(view, remembered, legal_moves_of(view));
    order_is_a_sorted_rearrangement(view, remembered, legal_moves_of(view));
    assert(legal_moves_of(view).to_multiset().count(mating) > 0);
    assert(moves.contains(mating));
    let at = choose|i: int| 0 <= i < moves.len() && moves[i] == mating;
    assert(legal_moves_of(view).len() > 0);
    assert(status_of(view) == Status::Ongoing);
    moves_reach_the_mate(
        state,
        quiescence,
        view,
        moves,
        0,
        at as nat,
        depth,
        ply,
        narrowed_alpha(alpha, ply),
        None,
    );
}

} // verus!
