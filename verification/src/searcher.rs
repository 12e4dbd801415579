//! Negamax search with alpha-beta pruning, a transposition table, quiescence
//! search and iterative deepening.

use vstd::prelude::*;
use crate::abort::AbortHandle;
use crate::entry::Entry;
use crate::evaluation::{evaluate, evaluation, evaluation_is_bounded};
use crate::minimax::{capture_value, clamped, quiescence_search_is_minimax};
use crate::move_ordering::{order_moves, order_of, ordered_moves_are_given};
use crate::position::{board_hash, board_status, board_view, capture_moves, legal_moves, make_move};
use crate::position::{is_playable, playable};
use crate::position::{capture_moves_of, fingerprint_of, legal_moves_of, status_of, successor};
use crate::position::{BoardView, Move, Status};
use crate::table::{empty_slots, is_power_of_two, probe_after_store, probe_slots, slot_of};
use crate::table::{slots_for, store_slots};
use crate::table::TranspositionTable;

verus! {

/// The score of giving mate at the root. A mate that is `n` plies away from
/// the root scores `n` less.
pub const IMMEDIATE_MATE_SCORE: i32 = 100000;

/// Above every score.
pub const POS_INF: i32 = 9999999;

/// Below every score.
pub const NEG_INF: i32 = -9999999;

/// A score is a mate score where it is within this many points of
/// `IMMEDIATE_MATE_SCORE`, on either side of zero. A search goes no further
/// than this many plies from its root.
pub const MAX_MATE_DEPTH: i32 = 1000;

/// The longest line of captures that the quiescence search follows. A game
/// has at most thirty captures, so the limit is never met from a position of
/// a game.
pub const MAX_CAPTURE_DEPTH: u8 = 32;

/// The deepest iteration of the iterative deepening.
pub const MAX_SEARCH_DEPTH: u8 = 255;

/// What a stored score says of the true score of a position.
#[derive(Clone, Copy, Debug, PartialEq, Eq, Structural, PartialOrd)]
pub enum EvalType {
    /// The score is the true score.
    Exact,
    /// The search failed high: the true score is at least the stored one.
    LowerBound,
    /// The search failed low: the true score is at most the stored one.
    UpperBound,
}

/// Counters of one search. They are kept for the caller and never read by
/// the search. A counter that has reached the largest number stays there.
#[derive(Clone, Copy, Debug, PartialEq, Eq, Structural)]
pub struct SearchStats {
    /// Child positions that the main search has searched.
    pub nodes: u64,
    /// Positions that the quiescence search has evaluated.
    pub quiescence_nodes: u64,
    /// Searches that were answered by the transposition table.
    pub tt_hits: u64,
    /// Searches that ended in a beta cutoff.
    pub cutoffs: u64,
}

/// What a search reads and writes besides the board: the slots of the
/// transposition table, the counters, and the best move and score that the
/// running iteration has found at the root so far.
pub struct SearchState {
    pub slots: Seq<(u64, Option<Entry>)>,
    pub stats: SearchStats,
    pub iter_move: Option<Move>,
    pub iter_eval: i32,
}

/// The score that a search returns, and the state it leaves.
pub struct Outcome {
    pub value: int,
    pub state: SearchState,
}

/// A searcher as its callers see it.
pub struct SearcherView {
    /// The position at the root.
    pub board: BoardView,
    /// Is the quiescence search in use?
    pub quiescence: bool,
    /// The state that a search works on.
    pub search: SearchState,
    /// The best move of the last iteration that was completed.
    pub best_move: Option<Move>,
    /// The score of the last iteration that was completed.
    pub best_eval: i32,
    /// The depth of the last iteration that was completed.
    pub completed_depth: u8,
    /// Has the search been told to stop?
    pub aborted: bool,
    /// Has a handle on the abort flag been handed out? Only then can the
    /// search be stopped from outside while it runs.
    pub interruptible: bool,
}

/// `count` and one more, as far as a `u64` can count.
pub open spec fn bump(count: u64) -> u64 {
    if count < u64::MAX {
        (count + 1) as u64
    } else {
        count
    }
}

impl SearchState {
    /// The state after `entry` was stored under `hash`.
    pub open spec fn with_entry(self, hash: u64, entry: Entry) -> SearchState {
        SearchState { slots: store_slots(self.slots, hash, entry), ..self }
    }

    /// The state after one more child position was searched.
    pub open spec fn count_node(self) -> SearchState {
        SearchState { stats: SearchStats { nodes: bump(self.stats.nodes), ..self.stats }, ..self }
    }

    /// The state after one more position was evaluated by the quiescence search.
    pub open spec fn count_quiescence_node(self) -> SearchState {
        SearchState {
            stats: SearchStats {
                quiescence_nodes: bump(self.stats.quiescence_nodes),
                ..self.stats
            },
            ..self
        }
    }

    /// The state after one more answer from the transposition table.
    pub open spec fn count_hit(self) -> SearchState {
        SearchState { stats: SearchStats { tt_hits: bump(self.stats.tt_hits), ..self.stats }, ..self }
    }

    /// The state after one more beta cutoff.
    pub open spec fn count_cutoff(self) -> SearchState {
        SearchState { stats: SearchStats { cutoffs: bump(self.stats.cutoffs), ..self.stats }, ..self }
    }

    /// The state after the root has found a new best move.
    pub open spec fn note_best(self, mv: Option<Move>, score: int) -> SearchState {
        SearchState { iter_move: mv, iter_eval: score as i32, ..self }
    }
}

/// Does `score` say that one side is being mated?
pub open spec fn mate_score(score: int) -> bool {
    score > IMMEDIATE_MATE_SCORE - MAX_MATE_DEPTH || -score > IMMEDIATE_MATE_SCORE
        - MAX_MATE_DEPTH
}

/// A score read from the table, as it counts at a node `ply` plies from the
/// root: a mate is that many plies further away from the root than from the
/// node itself.
pub open spec fn score_from_table(score: int, ply: int) -> int {
    if score > IMMEDIATE_MATE_SCORE - MAX_MATE_DEPTH {
        score - ply
    } else if -score > IMMEDIATE_MATE_SCORE - MAX_MATE_DEPTH {
        score + ply
    } else {
        score
    }
}

/// A score found at a node `ply` plies from the root, as it goes into the
/// table: with a mate counted from the node itself.
pub open spec fn score_for_table(score: int, ply: int) -> int {
    if score > IMMEDIATE_MATE_SCORE - MAX_MATE_DEPTH {
        score + ply
    } else if -score > IMMEDIATE_MATE_SCORE - MAX_MATE_DEPTH {
        score - ply
    } else {
        score
    }
}

/// The lower bound of a search window at a node `ply` plies from the root:
/// no score there is below that of being mated on the spot.
pub open spec fn narrowed_alpha(alpha: int, ply: int) -> int {
    if alpha > -IMMEDIATE_MATE_SCORE + ply {
        alpha
    } else {
        -IMMEDIATE_MATE_SCORE + ply
    }
}

/// The upper bound of a search window at a node `ply` plies from the root:
/// no score there is above that of giving mate on the spot.
pub open spec fn narrowed_beta(beta: int, ply: int) -> int {
    if beta < IMMEDIATE_MATE_SCORE - ply {
        beta
    } else {
        IMMEDIATE_MATE_SCORE - ply
    }
}

/// The move that a table with the slots `slots` remembers for `hash`.
pub open spec fn stored_move(slots: Seq<(u64, Option<Entry>)>, hash: u64) -> Option<Move> {
    match probe_slots(slots, hash) {
        Some(entry) => entry.move_,
        None => None,
    }
}

/// Can `entry` answer a search of `depth` plies with the window from `alpha`
/// to `beta`, where it says `score`? It has to come from a search at least as
/// deep, and to be exact, or an upper bound that is not above `alpha`, or a
/// lower bound that is not below `beta`.
pub open spec fn usable(entry: Entry, score: int, depth: int, alpha: int, beta: int) -> bool {
    entry.depth >= depth && match entry.node_type {
        EvalType::Exact => true,
        EvalType::UpperBound => score <= alpha,
        EvalType::LowerBound => score >= beta,
    }
}

/// The score with which a table with the slots `slots` answers a search, if
/// it can.
pub open spec fn lookup(
    slots: Seq<(u64, Option<Entry>)>,
    hash: u64,
    depth: int,
    ply: int,
    alpha: int,
    beta: int,
) -> Option<int> {
    match probe_slots(slots, hash) {
        Some(entry) => {
            let score = score_from_table(entry.value as int, ply);
            if usable(entry, score, depth, alpha, beta) {
                Some(score)
            } else {
                None
            }
        },
        None => None,
    }
}

/// The state after the table has answered the search of a node with `score`:
/// the answer is counted, and at the root the remembered move and the score
/// become the best of the iteration.
pub open spec fn after_hit(state: SearchState, hash: u64, ply: int, score: int) -> SearchState {
    if ply == 0 {
        state.count_hit().note_best(stored_move(state.slots, hash), score)
    } else {
        state.count_hit()
    }
}

/// The quiescence search of a position with the window from `alpha` to
/// `beta`, following lines of at most `budget` captures.
///
/// The static evaluation stands as a lower bound: the player to move need
/// not capture. Where it reaches `beta`, the result is `beta`. Else the
/// captures are tried in turn.
pub open spec fn quiesce(
    state: SearchState,
    view: BoardView,
    budget: nat,
    alpha: int,
    beta: int,
) -> Outcome
    decreases budget, 1int, 0nat,
{
    let stand_pat = evaluation(view);
    let counted = state.count_quiescence_node();
    if stand_pat >= beta {
        Outcome { value: beta, state: counted }
    } else {
        let floor = if stand_pat > alpha {
            stand_pat
        } else {
            alpha
        };
        if budget == 0 {
            Outcome { value: floor, state: counted }
        } else {
            quiesce_from(counted, view, capture_moves_of(view), 0, budget, floor, beta)
        }
    }
}

/// The quiescence search of a position from its capture number `next` on,
/// where the captures before have raised the lower bound to `alpha`.
///
/// A capture whose score, the negated result of the search of the position it
/// leads to, reaches `beta` ends the search with `beta`. One that scores above
/// `alpha` raises `alpha`. After the last capture the result is `alpha`, as
/// it is at once where no capture is left in the budget.
pub open spec fn quiesce_from(
    state: SearchState,
    view: BoardView,
    moves: Seq<Move>,
    next: nat,
    budget: nat,
    alpha: int,
    beta: int,
) -> Outcome
    decreases budget, 0int, moves.len() - next,
{
    if next >= moves.len() || budget == 0 {
        Outcome { value: alpha, state }
    } else {
        let child = quiesce(
            state,
            successor(view, moves[next as int]),
            (budget - 1) as nat,
            -beta,
            -alpha,
        );
        let score = -child.value;
        if score >= beta {
            Outcome { value: beta, state: child.state.count_cutoff() }
        } else if score > alpha {
            quiesce_from(child.state, view, moves, next + 1, budget, score, beta)
        } else {
            quiesce_from(child.state, view, moves, next + 1, budget, alpha, beta)
        }
    }
}

/// The search of a position to `depth` plies, `ply` plies from the root, with
/// the window from `alpha` to `beta`.
///
/// Below the root a stalemate scores 0 at once. The window is narrowed to
/// the scores that a mate can still have at this distance from the root; an
/// empty window gives its lower bound. Then the transposition table is
/// asked. At depth 0 the result is that of the quiescence search, or the
/// static evaluation where that search is not in use. A checkmate scores as
/// a mate `ply` plies away, against the player to move; a stalemate 0. Else
/// the legal moves are searched in their order.
pub open spec fn search(
    state: SearchState,
    quiescence: bool,
    view: BoardView,
    depth: nat,
    ply: int,
    alpha: int,
    beta: int,
) -> Outcome
    decreases depth, 1int, 0nat,
{
    if ply > 0 && status_of(view) == Status::Stalemate {
        Outcome { value: 0, state }
    } else {
        let low = narrowed_alpha(alpha, ply);
        let high = narrowed_beta(beta, ply);
        let hash = fingerprint_of(view);
        if low >= high {
            Outcome { value: low, state }
        } else {
            match lookup(state.slots, hash, depth as int, ply, low, high) {
                Some(score) => Outcome { value: score, state: after_hit(state, hash, ply, score) },
                None => if depth == 0 {
                    if quiescence {
                        quiesce(state, view, MAX_CAPTURE_DEPTH as nat, low, high)
                    } else {
                        Outcome { value: evaluation(view), state }
                    }
                } else if status_of(view) == Status::Checkmate {
                    Outcome { value: -(IMMEDIATE_MATE_SCORE - ply), state }
                } else if status_of(view) == Status::Stalemate {
                    Outcome { value: 0, state }
                } else {
                    search_from(
                        state,
                        quiescence,
                        view,
                        order_of(view, stored_move(state.slots, hash), legal_moves_of(view)),
                        0,
                        depth,
                        ply,
                        low,
                        high,
                        None,
                    )
                },
            }
        }
    }
}

/// The search of a position from its move number `next` on, where the moves
/// before have raised the lower bound to `alpha` and `best` is the move that
/// raised it last.
///
/// The score of a move is the negated result of the search of the position
/// it leads to, one ply less deep, with the negated window. A move whose
/// score reaches `beta` ends the search with `beta`, and is stored with its
/// score as a lower bound. One that scores above `alpha` raises `alpha` and
/// becomes the best move; at the root it becomes the best of the iteration.
/// After the last move the result is `alpha`; it is stored as exact where a
/// move has raised it, and as an upper bound where none has. A search of no
/// depth has no moves to search.
pub open spec fn search_from(
    state: SearchState,
    quiescence: bool,
    view: BoardView,
    moves: Seq<Move>,
    next: nat,
    depth: nat,
    ply: int,
    alpha: int,
    beta: int,
    best: Option<Move>,
) -> Outcome
    decreases depth, 0int, moves.len() - next,
{
    let hash = fingerprint_of(view);
    if depth == 0 {
        Outcome { value: alpha, state }
    } else if next >= moves.len() {
        let entry = Entry {
            value: score_for_table(alpha, ply) as i32,
            move_: best,
            depth: depth as u8,
            node_type: if best is Some {
                EvalType::Exact
            } else {
                EvalType::UpperBound
            },
        };
        Outcome { value: alpha, state: state.with_entry(hash, entry) }
    } else {
        let mv = moves[next as int];
        let child = search(
            state,
            quiescence,
            successor(view, mv),
            (depth - 1) as nat,
            ply + 1,
            -beta,
            -alpha,
        );
        let score = -child.value;
        let visited = child.state.count_node();
        if score >= beta {
            let entry = Entry {
                value: score_for_table(score, ply) as i32,
                move_: Some(mv),
                depth: depth as u8,
                node_type: EvalType::LowerBound,
            };
            Outcome { value: beta, state: visited.with_entry(hash, entry).count_cutoff() }
        } else if score > alpha {
            let noted = if ply == 0 {
                visited.note_best(Some(mv), score)
            } else {
                visited
            };
            search_from(noted, quiescence, view, moves, next + 1, depth, ply, score, beta, Some(mv))
        } else {
            search_from(visited, quiescence, view, moves, next + 1, depth, ply, alpha, beta, best)
        }
    }
}

/// A searcher as an iterative deepening starts on it: with the board, the
/// choice of quiescence search and the transposition table that it has, and
/// everything else reset.
pub open spec fn at_start(view: SearcherView) -> SearcherView {
    SearcherView {
        search: SearchState {
            slots: view.search.slots,
            stats: SearchStats { nodes: 0, quiescence_nodes: 0, tt_hits: 0, cutoffs: 0 },
            iter_move: None,
            iter_eval: 0,
        },
        best_move: None,
        best_eval: 0,
        completed_depth: 0,
        aborted: false,
        ..view
    }
}

/// A searcher after one more iteration, of `depth` plies: the root was
/// searched with the full window, and what the search found best there has
/// become the best move and score of the searcher.
pub open spec fn after_iteration(view: SearcherView, depth: nat) -> SearcherView {
    let outcome = search(
        view.search,
        view.quiescence,
        view.board,
        depth,
        0,
        NEG_INF as int,
        POS_INF as int,
    );
    SearcherView {
        search: outcome.state,
        best_move: outcome.state.iter_move,
        best_eval: outcome.state.iter_eval,
        completed_depth: depth as u8,
        ..view
    }
}

/// A searcher after the iterations of depth 1 to `count`.
pub open spec fn after_iterations(view: SearcherView, count: nat) -> SearcherView
    decreases count,
{
    if count == 0 {
        view
    } else {
        after_iteration(after_iterations(view, (count - 1) as nat), count)
    }
}

/// The depth at which a deepening ends that is not stopped: the depth of the
/// first iteration, from `from` on, whose score is a mate score, and `limit`
/// where there is none before it.
pub open spec fn stopping_depth(view: SearcherView, from: nat, limit: nat) -> nat
    decreases limit - from,
{
    if from >= limit {
        limit
    } else if mate_score(after_iterations(view, from).best_eval as int) {
        from
    } else {
        stopping_depth(view, from + 1, limit)
    }
}

/// The deepening ends at `depth` where no iteration before it has a mate
/// score and it is the last one or has a mate score itself.
pub proof fn deepening_ends_at(view: SearcherView, from: nat, limit: nat, depth: nat)
    requires
        from <= depth <= limit,
        forall|earlier: nat|
            from <= earlier < depth ==> !mate_score(
                #[trigger] after_iterations(view, earlier).best_eval as int,
            ),
        depth == limit || mate_score(after_iterations(view, depth).best_eval as int),
    ensures
        stopping_depth(view, from, limit) == depth,
    decreases depth - from,
{
    if from < depth {
        deepening_ends_at(view, from + 1, limit, depth);
    }
}

/// Is a deepening to `target_depth` over? It is once it was told to stop,
/// has completed its last iteration, or has completed one with a mate score.
pub open spec fn deepening_is_over(view: SearcherView, target_depth: usize) -> bool {
    view.aborted || view.completed_depth >= depth_limit(target_depth) || mate_score(
        view.best_eval as int,
    )
}

/// The depth of the last iteration of a deepening to `target_depth`.
pub open spec fn depth_limit(target_depth: usize) -> nat {
    if target_depth == 0 || target_depth > MAX_SEARCH_DEPTH {
        MAX_SEARCH_DEPTH as nat
    } else {
        target_depth as nat
    }
}

/// No static evaluation is a mate score: the mate scores have a band of
/// their own, which material and placement cannot reach.
pub proof fn evaluation_is_no_mate_score(view: BoardView)
    ensures
        !mate_score(evaluation(view)),
{
    evaluation_is_bounded(view);
}

/// A score that was stored as exact is found again: a search of the same
/// position, at the same distance from the root and no deeper than the one
/// that stored it, is answered with that score, whatever its window, and the
/// table remembers the move. A deeper search is not answered.
pub proof fn stored_exact_score_is_found_again(
    slots: Seq<(u64, Option<Entry>)>,
    hash: u64,
    score: int,
    best: Option<Move>,
    depth: u8,
    ply: int,
    wanted: int,
    alpha: int,
    beta: int,
)
    requires
        slots.len() > 0,
        0 <= ply <= MAX_MATE_DEPTH,
        NEG_INF <= score <= POS_INF,
    ensures
        ({
            let entry = Entry {
                value: score_for_table(score, ply) as i32,
                move_: best,
                depth,
                node_type: EvalType::Exact,
            };
            let stored = store_slots(slots, hash, entry);
            &&& stored_move(stored, hash) == best
            &&& wanted <= depth ==> lookup(stored, hash, wanted, ply, alpha, beta) == Some(score)
            &&& wanted > depth ==> lookup(stored, hash, wanted, ply, alpha, beta) == None::<int>
        }),
{
    let entry = Entry {
        value: score_for_table(score, ply) as i32,
        move_: best,
        depth,
        node_type: EvalType::Exact,
    };
    probe_after_store(slots, hash, entry, hash);
}

/// A mate score keeps its meaning through the table: stored at one distance
/// from the root and read at another, it counts the plies to the mate from
/// the new root distance.
pub proof fn table_rebases_mate_scores(score: int, stored_at: int, read_at: int)
    requires
        0 <= stored_at <= MAX_MATE_DEPTH,
        0 <= read_at <= MAX_MATE_DEPTH,
    ensures
        score > IMMEDIATE_MATE_SCORE - MAX_MATE_DEPTH ==> score_from_table(
            score_for_table(score, stored_at),
            read_at,
        ) == score + stored_at - read_at,
        -score > IMMEDIATE_MATE_SCORE - MAX_MATE_DEPTH ==> score_from_table(
            score_for_table(score, stored_at),
            read_at,
        ) == score - stored_at + read_at,
        !mate_score(score) ==> score_from_table(score_for_table(score, stored_at), read_at)
            == score,
{
}

/// A checkmated position scores as a mate at its distance from the root,
/// against the player to move, and the search leaves no trace: in a search
/// of at least one ply whose narrowed window is not empty and which the
/// table does not answer.
pub proof fn checkmate_scores_mate_at_its_ply(
    state: SearchState,
    quiescence: bool,
    view: BoardView,
    depth: nat,
    ply: int,
    alpha: int,
    beta: int,
)
    requires
        status_of(view) == Status::Checkmate,
        depth > 0,
        narrowed_alpha(alpha, ply) < narrowed_beta(beta, ply),
        lookup(
            state.slots,
            fingerprint_of(view),
            depth as int,
            ply,
            narrowed_alpha(alpha, ply),
            narrowed_beta(beta, ply),
        ) == None::<int>,
    ensures
        search(state, quiescence, view, depth, ply, alpha, beta) == (Outcome {
            value: -(IMMEDIATE_MATE_SCORE - ply),
            state,
        }),
{
}

/// A stalemate scores 0, whatever stands on the board, and the search leaves
/// no trace: always below the root, and at the root in a search of at least
/// one ply whose narrowed window is not empty and which the table does not
/// answer.
pub proof fn stalemate_scores_zero(
    state: SearchState,
    quiescence: bool,
    view: BoardView,
    depth: nat,
    ply: int,
    alpha: int,
    beta: int,
)
    requires
        status_of(view) == Status::Stalemate,
        ply > 0 || (depth > 0 && narrowed_alpha(alpha, ply) < narrowed_beta(beta, ply) && lookup(
            state.slots,
            fingerprint_of(view),
            depth as int,
            ply,
            narrowed_alpha(alpha, ply),
            narrowed_beta(beta, ply),
        ) == None::<int>),
    ensures
        search(state, quiescence, view, depth, ply, alpha, beta) == (Outcome { value: 0, state }),
{
}

/// Does a quiescence search that starts in `state` come to a node, itself
/// or one further down, in the state `at`? Those are the states in which a
/// running search looks at the abort flag, and so the states in which it
/// may be stopped.
pub open spec fn quiesce_reaches(
    state: SearchState,
    view: BoardView,
    budget: nat,
    alpha: int,
    beta: int,
    at: SearchState,
) -> bool
    decreases budget, 1int, 0nat,
{
    at == state || (evaluation(view) < beta && budget > 0 && quiesce_from_reaches(
        state.count_quiescence_node(),
        view,
        capture_moves_of(view),
        0,
        budget,
        if evaluation(view) > alpha {
            evaluation(view)
        } else {
            alpha
        },
        beta,
        at,
    ))
}

/// The same, from capture number `next` on: the state is reached below that
/// capture, or the capture is searched to its end without a cutoff and the
/// state is reached from the next capture on.
pub open spec fn quiesce_from_reaches(
    state: SearchState,
    view: BoardView,
    moves: Seq<Move>,
    next: nat,
    budget: nat,
    alpha: int,
    beta: int,
    at: SearchState,
) -> bool
    decreases budget, 0int, moves.len() - next,
{
    next < moves.len() && budget > 0 && {
        let after = successor(view, moves[next as int]);
        let child = quiesce(state, after, (budget - 1) as nat, -beta, -alpha);
        let score = -child.value;
        quiesce_reaches(state, after, (budget - 1) as nat, -beta, -alpha, at) || (score < beta
            && quiesce_from_reaches(
            child.state,
            view,
            moves,
            next + 1,
            budget,
            if score > alpha {
                score
            } else {
                alpha
            },
            beta,
            at,
        ))
    }
}

/// Does a search that starts in `state` come to a node, itself or one
/// further down, in the state `at`? Those are the states in which a running
/// search looks at the abort flag, and so the states in which it may be
/// stopped: whatever it has stored by then, it stored as a search that was
/// not stopped does.
pub open spec fn search_reaches(
    state: SearchState,
    quiescence: bool,
    view: BoardView,
    depth: nat,
    ply: int,
    alpha: int,
    beta: int,
    at: SearchState,
) -> bool
    decreases depth, 1int, 0nat,
{
    let low = narrowed_alpha(alpha, ply);
    let high = narrowed_beta(beta, ply);
    let hash = fingerprint_of(view);
    at == state || (!(ply > 0 && status_of(view) == Status::Stalemate) && low < high && lookup(
        state.slots,
        hash,
        depth as int,
        ply,
        low,
        high,
    ) == None::<int> && if depth == 0 {
        quiescence && quiesce_reaches(state, view, MAX_CAPTURE_DEPTH as nat, low, high, at)
    } else {
        status_of(view) == Status::Ongoing && search_from_reaches(
            state,
            quiescence,
            view,
            order_of(view, stored_move(state.slots, hash), legal_moves_of(view)),
            0,
            depth,
            ply,
            low,
            high,
            at,
        )
    })
}

/// The same, from move number `next` on: the state is reached below that
/// move, or the move is searched to its end without a cutoff and the state
/// is reached from the next move on.
pub open spec fn search_from_reaches(
    state: SearchState,
    quiescence: bool,
    view: BoardView,
    moves: Seq<Move>,
    next: nat,
    depth: nat,
    ply: int,
    alpha: int,
    beta: int,
    at: SearchState,
) -> bool
    decreases depth, 0int, moves.len() - next,
{
    depth > 0 && next < moves.len() && {
        let mv = moves[next as int];
        let after = successor(view, mv);
        let child = search(state, quiescence, after, (depth - 1) as nat, ply + 1, -beta, -alpha);
        let score = -child.value;
        let visited = child.state.count_node();
        search_reaches(state, quiescence, after, (depth - 1) as nat, ply + 1, -beta, -alpha, at)
            || (score < beta && search_from_reaches(
            if score > alpha && ply == 0 {
                visited.note_best(Some(mv), score)
            } else {
                visited
            },
            quiescence,
            view,
            moves,
            next + 1,
            depth,
            ply,
            if score > alpha {
                score
            } else {
                alpha
            },
            beta,
            at,
        ))
    }
}

/// No entry in the slots holds a score beyond the mate scores.
pub open spec fn scores_are_in_range(slots: Seq<(u64, Option<Entry>)>) -> bool {
    forall|i: int|
        0 <= i < slots.len() ==> match (#[trigger] slots[i]).1 {
            Some(entry) => -IMMEDIATE_MATE_SCORE <= entry.value <= IMMEDIATE_MATE_SCORE,
            None => true,
        }
}

/// The move that the table remembers for `hash`: the best move of the last
/// search stored under it, if there is such a search and it found a move.
pub fn get_stored_move(tt: &TranspositionTable, hash: u64) -> (found: Option<Move>)
    requires
        tt.wf(),
    ensures
        found == stored_move(tt@, hash),
{
    match tt.probe(hash) {
        Some(entry) => entry.move_,
        None => None,
    }
}

/// One more, as far as a `u64` can count.
pub fn bumped(count: u64) -> (next: u64)
    ensures
        next == bump(count),
{
    if count < u64::MAX {
        count + 1
    } else {
        count
    }
}

/// A chess searcher: a position, a transposition table, and the best move
/// found so far.
pub struct Searcher {
    use_second_search: bool,
    board: chess::Board,
    tt: TranspositionTable,
    best_move: Option<Move>,
    stats: SearchStats,
    abort_search: bool,
    signal: AbortHandle,
    signal_shared: bool,
    best_eval: i32,
    best_move_this_iter: Option<Move>,
    best_eval_this_iter: i32,
    completed_depth: u8,
}

impl View for Searcher {
    type V = SearcherView;

    closed spec fn view(&self) -> SearcherView {
        SearcherView {
            board: board_view(self.board),
            quiescence: self.use_second_search,
            search: SearchState {
                slots: self.tt@,
                stats: self.stats,
                iter_move: self.best_move_this_iter,
                iter_eval: self.best_eval_this_iter,
            },
            best_move: self.best_move,
            best_eval: self.best_eval,
            completed_depth: self.completed_depth,
            aborted: self.abort_search,
            interruptible: self.signal_shared,
        }
    }
}

impl Searcher {
    /// The table has as many slots as it keeps count of.
    pub closed spec fn table_is_whole(&self) -> bool {
        self.tt.wf()
    }

    /// What every search asks of a searcher and leaves behind: the table has
    /// a power of two of slots, so at least one, and holds no score beyond
    /// the mate scores; and the board is sane and has no more pieces than a
    /// game has.
    pub open spec fn wf(&self) -> bool {
        &&& self.table_is_whole()
        &&& is_power_of_two(self@.search.slots.len() as int)
        &&& scores_are_in_range(self@.search.slots)
        &&& playable(self@.board)
    }

    /// A searcher for `board`, with an empty transposition table for a budget
    /// of `tt_size` bytes. `use_second_search` turns the quiescence search on.
    /// The table lives as long as the searcher and is kept from one search
    /// to the next.
    ///
    /// There is a searcher for every board of a game, and none for a board
    /// that is not sane, on which the moves cannot be made, or on which a
    /// side has more pieces than a side has in a game: the move generator
    /// has no room for their moves.
    pub fn new(board: chess::Board, use_second_search: bool, tt_size: usize) -> (made: Option<
        Searcher,
    >)
        ensures
            made is Some <==> playable(board_view(board)),
            match made {
                Some(searcher) => searcher.wf() && searcher@ == (SearcherView {
                    board: board_view(board),
                    quiescence: use_second_search,
                    search: SearchState {
                        slots: empty_slots(slots_for(tt_size)),
                        stats: SearchStats { nodes: 0, quiescence_nodes: 0, tt_hits: 0, cutoffs: 0 },
                        iter_move: None,
                        iter_eval: 0,
                    },
                    best_move: None,
                    best_eval: 0,
                    completed_depth: 0,
                    aborted: false,
                    interruptible: false,
                }),
                None => true,
            },
    {
        if !is_playable(&board) {
            return None;
        }
        let searcher = Searcher {
            use_second_search,
            board,
            tt: TranspositionTable::new(tt_size),
            best_move: None,
            stats: SearchStats { nodes: 0, quiescence_nodes: 0, tt_hits: 0, cutoffs: 0 },
            abort_search: false,
            signal: AbortHandle::new(),
            signal_shared: false,
            best_eval: 0,
            best_move_this_iter: None,
            best_eval_this_iter: 0,
            completed_depth: 0,
        };
        Some(searcher)
    }

    /// The best move of the last iteration that was completed.
    pub fn get_best_move(&self) -> (best: Option<Move>)
        ensures
            best == self@.best_move,
    {
        self.best_move
    }

    /// The score of the last iteration that was completed.
    pub fn get_best_eval(&self) -> (best: i32)
        ensures
            best == self@.best_eval,
    {
        self.best_eval
    }

    /// The position at the root.
    pub fn get_board(&self) -> (board: chess::Board)
        ensures
            board_view(board) == self@.board,
    {
        self.board
    }

    /// The counters of the last search.
    pub fn stats(&self) -> (stats: SearchStats)
        ensures
            stats == self@.search.stats,
    {
        self.stats
    }

    /// The depth of the last iteration that was completed.
    pub fn completed_depth(&self) -> (depth: u8)
        ensures
            depth == self@.completed_depth,
    {
        self.completed_depth
    }

    /// Has the search been told to stop, and seen it?
    pub fn is_aborted(&self) -> (aborted: bool)
        ensures
            aborted == self@.aborted,
    {
        self.abort_search
    }

    /// A handle on the abort flag, for a thread that is to stop the search
    /// while it runs. From now on every search looks at the flag at each of
    /// its nodes.
    pub fn abort_handle(&mut self) -> (handle: AbortHandle)
        ensures
            final(self)@ == (SearcherView { interruptible: true, ..old(self)@ }),
            final(self).wf() == old(self).wf(),
    {
        self.signal_shared = true;
        self.signal.clone()
    }

    /// Tells the search to stop: from now on every search returns at once,
    /// until the next iterative deepening starts.
    pub fn end_search(&mut self)
        ensures
            final(self)@ == (SearcherView { aborted: true, ..old(self)@ }),
            final(self).wf() == old(self).wf(),
    {
        self.abort_search = true;
    }

    /// Does `score` say that one side is being mated?
    pub fn is_mate_score(&self, score: i32) -> (mate: bool)
        ensures
            mate == mate_score(score as int),
    {
        score > IMMEDIATE_MATE_SCORE - MAX_MATE_DEPTH || score < -(IMMEDIATE_MATE_SCORE
            - MAX_MATE_DEPTH)
    }

    /// A score read from the table, as it counts `num_ply_searched` plies
    /// from the root.
    pub fn correct_retrieved_mate_score(&self, score: i32, num_ply_searched: i32) -> (corrected: i32)
        requires
            0 <= num_ply_searched,
        ensures
            corrected == score_from_table(score as int, num_ply_searched as int),
    {
        if score > IMMEDIATE_MATE_SCORE - MAX_MATE_DEPTH {
            score - num_ply_searched
        } else if score < -(IMMEDIATE_MATE_SCORE - MAX_MATE_DEPTH) {
            score + num_ply_searched
        } else {
            score
        }
    }

    /// A score found `num_ply_searched` plies from the root, as it goes into
    /// the table.
    pub fn correct_score_to_store(&self, score: i32, num_ply_searched: i32) -> (corrected: i32)
        requires
            0 <= num_ply_searched <= MAX_MATE_DEPTH,
            NEG_INF <= score <= POS_INF,
        ensures
            corrected == score_for_table(score as int, num_ply_searched as int),
    {
        if score > IMMEDIATE_MATE_SCORE - MAX_MATE_DEPTH {
            score + num_ply_searched
        } else if score < -(IMMEDIATE_MATE_SCORE - MAX_MATE_DEPTH) {
            score - num_ply_searched
        } else {
            score
        }
    }

    /// Asks the transposition table for the score of the position with the
    /// fingerprint `hash`, for a search of `depth` plies at `ply_from_root`
    /// plies from the root with the window from `alpha` to `beta`.
    pub fn lookup_evaluation(
        &self,
        hash: u64,
        depth: u8,
        ply_from_root: i32,
        alpha: i32,
        beta: i32,
    ) -> (found: Option<i32>)
        requires
            self.wf(),
            0 <= ply_from_root,
        ensures
            match found {
                Some(score) => lookup(
                    self@.search.slots,
                    hash,
                    depth as int,
                    ply_from_root as int,
                    alpha as int,
                    beta as int,
                ) == Some(score as int),
                None => lookup(
                    self@.search.slots,
                    hash,
                    depth as int,
                    ply_from_root as int,
                    alpha as int,
                    beta as int,
                ) == None::<int>,
            },
    {
        match self.tt.probe(hash) {
            Some(entry) => {
                if entry.depth >= depth {
                    let corrected = self.correct_retrieved_mate_score(entry.value, ply_from_root);
                    if entry.node_type == EvalType::Exact {
                        return Some(corrected);
                    }
                    if entry.node_type == EvalType::UpperBound && corrected <= alpha {
                        return Some(corrected);
                    }
                    if entry.node_type == EvalType::LowerBound && corrected >= beta {
                        return Some(corrected);
                    }
                }
                None
            },
            None => None,
        }
    }

    /// Stores the result of a search of the position with the fingerprint
    /// `hash`: `eval`, found `ply_from_root` plies from the root by a search
    /// of `depth` plies.
    pub fn store_eval(
        &mut self,
        hash: u64,
        depth: u8,
        ply_from_root: i32,
        eval: i32,
        eval_type: EvalType,
        this_move: Option<Move>,
    )
        requires
            old(self).wf(),
            0 <= ply_from_root <= MAX_MATE_DEPTH,
            -IMMEDIATE_MATE_SCORE + ply_from_root <= eval <= IMMEDIATE_MATE_SCORE - ply_from_root,
        ensures
            final(self).wf(),
            final(self)@ == (SearcherView {
                search: old(self)@.search.with_entry(
                    hash,
                    Entry {
                        value: score_for_table(eval as int, ply_from_root as int) as i32,
                        move_: this_move,
                        depth,
                        node_type: eval_type,
                    },
                ),
                ..old(self)@
            }),
            probe_slots(final(self)@.search.slots, hash) == Some(
                Entry {
                    value: score_for_table(eval as int, ply_from_root as int) as i32,
                    move_: this_move,
                    depth,
                    node_type: eval_type,
                },
            ),
            stored_move(final(self)@.search.slots, hash) == this_move,
            eval_type == EvalType::Exact ==> forall|wanted: u8, alpha: i32, beta: i32|
                wanted <= depth ==> #[trigger] lookup(
                    final(self)@.search.slots,
                    hash,
                    wanted as int,
                    ply_from_root as int,
                    alpha as int,
                    beta as int,
                ) == Some(eval as int),
            forall|wanted: u8, alpha: i32, beta: i32|
                wanted > depth ==> #[trigger] lookup(
                    final(self)@.search.slots,
                    hash,
                    wanted as int,
                    ply_from_root as int,
                    alpha as int,
                    beta as int,
                ) == None::<int>,
    {
        let value = self.correct_score_to_store(eval, ply_from_root);
        let ghost before = self.tt@;
        self.tt.store(hash, value, this_move, depth, eval_type);
        assert(scores_are_in_range(self.tt@)) by {
            let entry = Entry { value, move_: this_move, depth, node_type: eval_type };
            assert forall|i: int| 0 <= i < self.tt@.len() implies match (#[trigger] self.tt@[i]).1 {
                Some(entry) => -IMMEDIATE_MATE_SCORE <= entry.value <= IMMEDIATE_MATE_SCORE,
                None => true,
            } by {
                if i != slot_of(before.len(), hash) {
                    assert(self.tt@[i] == before[i]);
                }
            }
        }
    }

    /// Takes note of one look at the abort flag: a search that was told to
    /// stop stays so, and one that saw the flag raised is told to stop.
    fn heed(&mut self, raised: bool) -> (aborted: bool)
        ensures
            aborted == (old(self)@.aborted || raised),
            final(self)@ == (SearcherView { aborted, ..old(self)@ }),
            final(self).wf() == old(self).wf(),
    {
        if raised {
            self.abort_search = true;
        }
        self.abort_search
    }

    /// Looks at the abort flag, where a handle on it was handed out, and
    /// remembers it once it was seen raised. What the flag holds is for
    /// other threads to decide: this is stated for every answer.
    fn poll_abort(&mut self) -> (aborted: bool)
        ensures
            final(self)@ == (SearcherView { aborted, ..old(self)@ }),
            final(self).wf() == old(self).wf(),
            old(self)@.aborted ==> aborted,
            aborted ==> old(self)@.aborted || old(self)@.interruptible,
    {
        let raised = if !self.abort_search && self.signal_shared {
            self.signal.is_requested()
        } else {
            false
        };
        self.heed(raised)
    }

    /// The quiescence search of the position on the board, with the window
    /// from `alpha` to `beta`, following lines of at most `budget` captures.
    /// It returns the minimax value of the tree of captures, cut to the
    /// window, and counts the positions that it has to look at for that: see
    /// [`quiesce`].
    ///
    /// Where the search is told to stop it returns 0. Told so before it
    /// starts, it leaves the searcher as it is; told so on its way, it leaves
    /// it as it was at the node at which it saw the stop. It touches nothing
    /// but the counters.
    pub fn search_captures(&mut self, budget: u8, alpha: i32, beta: i32) -> (score: i32)
        requires
            old(self).wf(),
            old(self)@.aborted || NEG_INF <= alpha < beta <= POS_INF,
        ensures
            final(self).wf(),
            !final(self)@.aborted ==> score == clamped(
                capture_value(old(self)@.board, budget as nat),
                alpha as int,
                beta as int,
            ),
            final(self)@ == (SearcherView {
                search: SearchState { stats: final(self)@.search.stats, ..old(self)@.search },
                aborted: final(self)@.aborted,
                ..old(self)@
            }),
            old(self)@.aborted ==> final(self)@ == old(self)@,
            final(self)@.aborted ==> old(self)@.aborted || old(self)@.interruptible,
            final(self)@.aborted ==> score == 0,
            final(self)@.aborted && !old(self)@.aborted ==> quiesce_reaches(
                old(self)@.search,
                old(self)@.board,
                budget as nat,
                alpha as int,
                beta as int,
                final(self)@.search,
            ),
            !final(self)@.aborted ==> alpha <= score <= beta,
            !final(self)@.aborted ==> (Outcome { value: score as int, state: final(self)@.search })
                == quiesce(
                old(self)@.search,
                old(self)@.board,
                budget as nat,
                alpha as int,
                beta as int,
            ),
        decreases budget,
    {
        if self.poll_abort() {
            return 0;
        }
        let ghost start = self@;
        let ghost view = board_view(self.board);
        let ghost goal = quiesce(start.search, view, budget as nat, alpha as int, beta as int);
        proof {
            quiescence_search_is_minimax(
                start.search,
                view,
                budget as nat,
                alpha as int,
                beta as int,
            );
        }
        let stand_pat = evaluate(&self.board);
        self.stats.quiescence_nodes = bumped(self.stats.quiescence_nodes);
        if stand_pat >= beta {
            return beta;
        }
        let mut lower = alpha;
        if stand_pat > lower {
            lower = stand_pat;
        }
        if budget == 0 {
            return lower;
        }
        let moves = capture_moves(&self.board);
        let mut next: usize = 0;
        while next < moves.len()
            invariant
                next <= moves.len(),
                self.wf(),
                !self@.aborted,
                budget > 0,
                start == old(self)@,
                !start.aborted,
                view == start.board,
                goal == quiesce(start.search, view, budget as nat, alpha as int, beta as int),
                goal.value == clamped(
                    capture_value(view, budget as nat),
                    alpha as int,
                    beta as int,
                ),
                view == board_view(self.board),
                moves@ == capture_moves_of(view),
                forall|i: int|
                    0 <= i < moves.len() ==> legal_moves_of(view).contains(#[trigger] moves[i]),
                NEG_INF <= alpha <= lower < beta <= POS_INF,
                self@ == (SearcherView {
                    search: SearchState { stats: self@.search.stats, ..start.search },
                    ..start
                }),
                quiesce_from(
                    self@.search,
                    view,
                    moves@,
                    next as nat,
                    budget as nat,
                    lower as int,
                    beta as int,
                ) == goal,
                forall|at: SearchState| #[trigger]
                    quiesce_from_reaches(
                        self@.search,
                        view,
                        moves@,
                        next as nat,
                        budget as nat,
                        lower as int,
                        beta as int,
                        at,
                    ) ==> quiesce_reaches(
                        start.search,
                        view,
                        budget as nat,
                        alpha as int,
                        beta as int,
                        at,
                    ),
            decreases moves.len() - next,
        {
            let mv = moves[next];
            let backup = self.board;
            let ghost before = self@.search;
            let ghost bound = lower;
            self.board = make_move(&self.board, mv);
            let child = self.search_captures(budget - 1, -beta, -lower);
            self.board = backup;
            if self.abort_search {
                proof {
                    assert(quiesce_from_reaches(
                        before,
                        view,
                        moves@,
                        next as nat,
                        budget as nat,
                        bound as int,
                        beta as int,
                        self@.search,
                    ));
                }
                return 0;
            }
            let score = -child;
            if score >= beta {
                self.stats.cutoffs = bumped(self.stats.cutoffs);
                return beta;
            }
            if score > lower {
                lower = score;
            }
            next = next + 1;
            proof {
                assert forall|at: SearchState| #[trigger]
                    quiesce_from_reaches(
                        self@.search,
                        view,
                        moves@,
                        next as nat,
                        budget as nat,
                        lower as int,
                        beta as int,
                        at,
                    ) implies quiesce_reaches(
                    start.search,
                    view,
                    budget as nat,
                    alpha as int,
                    beta as int,
                    at,
                ) by {
                    assert(quiesce_from_reaches(
                        before,
                        view,
                        moves@,
                        (next - 1) as nat,
                        budget as nat,
                        bound as int,
                        beta as int,
                        at,
                    ));
                }
            }
        }
        lower
    }

    /// The search of the position on the board to `depth` plies, at
    /// `ply_from_root` plies from the root, with the window from `alpha` to
    /// `beta`: see [`search`].
    ///
    /// Where the search is told to stop it returns 0. Told so before it
    /// starts, it leaves the searcher as it is, whatever it is asked to
    /// search; told so on its way, it leaves it as it was at the node at
    /// which it saw the stop, and stores nothing from then on. The best move and score of the last completed iteration
    /// are never touched.
    pub fn search_moves(&mut self, depth: u8, ply_from_root: i32, alpha: i32, beta: i32) -> (score:
        i32)
        requires
            old(self).wf(),
            old(self)@.aborted || (0 <= ply_from_root && ply_from_root + depth <= MAX_MATE_DEPTH
                && alpha < beta),
        ensures
            final(self).wf(),
            final(self)@ == (SearcherView {
                search: final(self)@.search,
                aborted: final(self)@.aborted,
                ..old(self)@
            }),
            old(self)@.aborted ==> final(self)@ == old(self)@,
            final(self)@.aborted ==> old(self)@.aborted || old(self)@.interruptible,
            final(self)@.aborted ==> score == 0,
            final(self)@.aborted && !old(self)@.aborted ==> search_reaches(
                old(self)@.search,
                old(self)@.quiescence,
                old(self)@.board,
                depth as nat,
                ply_from_root as int,
                alpha as int,
                beta as int,
                final(self)@.search,
            ),
            !final(self)@.aborted ==> (Outcome { value: score as int, state: final(self)@.search })
                == search(
                old(self)@.search,
                old(self)@.quiescence,
                old(self)@.board,
                depth as nat,
                ply_from_root as int,
                alpha as int,
                beta as int,
            ),
            !old(self)@.aborted ==> -IMMEDIATE_MATE_SCORE + ply_from_root <= score,
            !old(self)@.aborted ==> score <= IMMEDIATE_MATE_SCORE - ply_from_root || score
                <= alpha,
        decreases depth,
    {
        if self.poll_abort() {
            return 0;
        }
        let ghost start = self@;
        let ghost view = board_view(self.board);
        let ghost goal = search(
            start.search,
            start.quiescence,
            view,
            depth as nat,
            ply_from_root as int,
            alpha as int,
            beta as int,
        );
        if ply_from_root > 0 {
            if board_status(&self.board) == Status::Stalemate {
                return 0;
            }
        }
        let low = if alpha > -IMMEDIATE_MATE_SCORE + ply_from_root {
            alpha
        } else {
            -IMMEDIATE_MATE_SCORE + ply_from_root
        };
        let high = if beta < IMMEDIATE_MATE_SCORE - ply_from_root {
            beta
        } else {
            IMMEDIATE_MATE_SCORE - ply_from_root
        };
        if low >= high {
            return low;
        }
        let hash = board_hash(&self.board);
        match self.lookup_evaluation(hash, depth, ply_from_root, low, high) {
            Some(found) => {
                proof {
                    let slot = slot_of(self.tt@.len(), hash);
                    assert(0 <= slot < self.tt@.len());
                    assert(self.tt@[slot].1 == probe_slots(self.tt@, hash));
                }
                self.stats.tt_hits = bumped(self.stats.tt_hits);
                if ply_from_root == 0 {
                    self.best_move_this_iter = get_stored_move(&self.tt, hash);
                    self.best_eval_this_iter = found;
                }
                return found;
            },
            None => {},
        }
        if depth == 0 {
            if self.use_second_search {
                return self.search_captures(MAX_CAPTURE_DEPTH, low, high);
            } else {
                return evaluate(&self.board);
            }
        }
        let status = board_status(&self.board);
        if status == Status::Checkmate {
            return -(IMMEDIATE_MATE_SCORE - ply_from_root);
        } else if status == Status::Stalemate {
            return 0;
        }
        let legal = legal_moves(&self.board);
        let moves = order_moves(&self.board, &self.tt, legal, true);
        proof {
            assert forall|i: int| 0 <= i < moves.len() implies legal_moves_of(view).contains(
                #[trigger] moves[i],
            ) by {
                ordered_moves_are_given(
                    view,
                    stored_move(start.search.slots, hash),
                    legal_moves_of(view),
                    i,
                );
            }
        }
        let mut lower = low;
        let mut best: Option<Move> = None;
        let mut next: usize = 0;
        while next < moves.len()
            invariant
                next <= moves.len(),
                self.wf(),
                !self@.aborted,
                depth > 0,
                0 <= ply_from_root,
                ply_from_root + depth <= MAX_MATE_DEPTH,
                start == old(self)@,
                !start.aborted,
                view == start.board,
                view == board_view(self.board),
                hash == fingerprint_of(view),
                forall|i: int|
                    0 <= i < moves.len() ==> legal_moves_of(view).contains(#[trigger] moves[i]),
                -IMMEDIATE_MATE_SCORE + ply_from_root <= low <= lower < high <= IMMEDIATE_MATE_SCORE
                    - ply_from_root,
                self@ == (SearcherView { search: self@.search, ..start }),
                search_from(
                    self@.search,
                    start.quiescence,
                    view,
                    moves@,
                    next as nat,
                    depth as nat,
                    ply_from_root as int,
                    lower as int,
                    high as int,
                    best,
                ) == goal,
                goal == search(
                    start.search,
                    start.quiescence,
                    view,
                    depth as nat,
                    ply_from_root as int,
                    alpha as int,
                    beta as int,
                ),
                forall|at: SearchState| #[trigger]
                    search_from_reaches(
                        self@.search,
                        start.quiescence,
                        view,
                        moves@,
                        next as nat,
                        depth as nat,
                        ply_from_root as int,
                        lower as int,
                        high as int,
                        at,
                    ) ==> search_reaches(
                        start.search,
                        start.quiescence,
                        view,
                        depth as nat,
                        ply_from_root as int,
                        alpha as int,
                        beta as int,
                        at,
                    ),
            decreases moves.len() - next,
        {
            let mv = moves[next];
            let backup = self.board;
            let ghost before = self@.search;
            let ghost bound = lower;
            self.board = make_move(&self.board, mv);
            let child = self.search_moves(depth - 1, ply_from_root + 1, -high, -lower);
            self.board = backup;
            if self.abort_search {
                proof {
                    assert(search_from_reaches(
                        before,
                        start.quiescence,
                        view,
                        moves@,
                        next as nat,
                        depth as nat,
                        ply_from_root as int,
                        bound as int,
                        high as int,
                        self@.search,
                    ));
                }
                return 0;
            }
            let score = -child;
            self.stats.nodes = bumped(self.stats.nodes);
            if score >= high {
                self.store_eval(hash, depth, ply_from_root, score, EvalType::LowerBound, Some(mv));
                self.stats.cutoffs = bumped(self.stats.cutoffs);
                return high;
            }
            if score > lower {
                best = Some(mv);
                lower = score;
                if ply_from_root == 0 {
                    self.best_move_this_iter = Some(mv);
                    self.best_eval_this_iter = score;
                }
            }
            next = next + 1;
            proof {
                assert forall|at: SearchState| #[trigger]
                    search_from_reaches(
                        self@.search,
                        start.quiescence,
                        view,
                        moves@,
                        next as nat,
                        depth as nat,
                        ply_from_root as int,
                        lower as int,
                        high as int,
                        at,
                    ) implies search_reaches(
                    start.search,
                    start.quiescence,
                    view,
                    depth as nat,
                    ply_from_root as int,
                    alpha as int,
                    beta as int,
                    at,
                ) by {
                    assert(search_from_reaches(
                        before,
                        start.quiescence,
                        view,
                        moves@,
                        (next - 1) as nat,
                        depth as nat,
                        ply_from_root as int,
                        bound as int,
                        high as int,
                        at,
                    ));
                }
            }
        }
        let node_type = if best.is_some() {
            EvalType::Exact
        } else {
            EvalType::UpperBound
        };
        self.store_eval(hash, depth, ply_from_root, lower, node_type, best);
        lower
    }

    /// Makes the searcher ready for a deepening: the counters and the best
    /// move and score are reset, and so is the abort flag; the transposition
    /// table is kept.
    pub fn begin_deepening(&mut self)
        requires
            old(self).wf(),
        ensures
            final(self).wf(),
            final(self)@ == at_start(old(self)@),
    {
        self.stats = SearchStats { nodes: 0, quiescence_nodes: 0, tt_hits: 0, cutoffs: 0 };
        self.best_move = None;
        self.best_move_this_iter = None;
        self.best_eval = 0;
        self.best_eval_this_iter = 0;
        self.completed_depth = 0;
        self.abort_search = false;
        if self.signal_shared {
            self.signal.clear();
        }
    }

    /// Runs the next iteration of a deepening to `target_depth`, one ply
    /// deeper than the last that was completed, and makes its best move and
    /// score those of the searcher. It tells whether it has completed an
    /// iteration.
    ///
    /// It runs none where the deepening is over: see [`deepening_is_over`].
    /// An iteration that is told to stop is not completed, and leaves the
    /// best move and score as they were.
    pub fn deepen(&mut self, target_depth: usize) -> (completed: bool)
        requires
            old(self).wf(),
        ensures
            final(self).wf(),
            deepening_is_over(old(self)@, target_depth) ==> !completed && final(self)@ == old(
                self,
            )@,
            !deepening_is_over(old(self)@, target_depth) ==> completed == !final(self)@.aborted,
            !deepening_is_over(old(self)@, target_depth) && !final(self)@.aborted ==> final(self)@
                == after_iteration(old(self)@, (old(self)@.completed_depth + 1) as nat),
            !deepening_is_over(old(self)@, target_depth) && final(self)@.aborted ==> old(
                self,
            )@.interruptible && final(self)@ == (SearcherView {
                search: final(self)@.search,
                aborted: true,
                ..old(self)@
            }) && search_reaches(
                old(self)@.search,
                old(self)@.quiescence,
                old(self)@.board,
                (old(self)@.completed_depth + 1) as nat,
                0,
                NEG_INF as int,
                POS_INF as int,
                final(self)@.search,
            ),
    {
        let limit: u8 = if target_depth == 0 || target_depth > MAX_SEARCH_DEPTH as usize {
            MAX_SEARCH_DEPTH
        } else {
            target_depth as u8
        };
        if self.abort_search || self.completed_depth >= limit || self.is_mate_score(
            self.best_eval,
        ) {
            return false;
        }
        let depth = self.completed_depth + 1;
        self.search_moves(depth, 0, NEG_INF, POS_INF);
        if self.abort_search {
            return false;
        }
        self.completed_depth = depth;
        self.best_move = self.best_move_this_iter;
        self.best_eval = self.best_eval_this_iter;
        true
    }

    /// Searches the position on the board to depth 1, 2, 3 and so on, up to
    /// `target_depth`; 0 stands for the deepest search there is, of
    /// `MAX_SEARCH_DEPTH` plies, as does any depth beyond that.
    ///
    /// The counters and the best move and score are reset at the start, and
    /// so is the abort flag; the transposition table is kept. After each
    /// iteration that was not told to stop, its best move and score become
    /// those of the searcher. The deepening ends at the target depth, or
    /// before it with the first iteration whose score is a mate score, or
    /// when it is told to stop: then the best move and score are those of
    /// the last iteration that was completed, and the table holds what the
    /// next iteration had stored when it was stopped.
    ///
    /// To end with the first mate score saves time; it does not show that the
    /// mate found is the shortest one.
    pub fn do_iterative_deepening_search(&mut self, target_depth: usize)
        requires
            old(self).wf(),
        ensures
            final(self).wf(),
            final(self)@.board == old(self)@.board,
            final(self)@.quiescence == old(self)@.quiescence,
            final(self)@.completed_depth <= depth_limit(target_depth),
            final(self)@.best_move == after_iterations(
                at_start(old(self)@),
                final(self)@.completed_depth as nat,
            ).best_move,
            final(self)@.best_eval == after_iterations(
                at_start(old(self)@),
                final(self)@.completed_depth as nat,
            ).best_eval,
            forall|depth: nat|
                1 <= depth < final(self)@.completed_depth ==> !mate_score(
                    #[trigger] after_iterations(at_start(old(self)@), depth).best_eval as int,
                ),
            !final(self)@.aborted ==> final(self)@ == after_iterations(
                at_start(old(self)@),
                final(self)@.completed_depth as nat,
            ),
            !final(self)@.aborted ==> final(self)@.completed_depth == depth_limit(target_depth)
                || mate_score(final(self)@.best_eval as int),
            !final(self)@.aborted ==> final(self)@ == after_iterations(
                at_start(old(self)@),
                stopping_depth(at_start(old(self)@), 1, depth_limit(target_depth)),
            ),
            final(self)@.aborted ==> final(self)@.completed_depth < depth_limit(target_depth),
            final(self)@.aborted ==> old(self)@.interruptible,
            final(self)@.aborted ==> final(self)@ == (SearcherView {
                search: final(self)@.search,
                aborted: true,
                ..after_iterations(at_start(old(self)@), final(self)@.completed_depth as nat)
            }),
            final(self)@.aborted ==> search_reaches(
                after_iterations(
                    at_start(old(self)@),
                    final(self)@.completed_depth as nat,
                ).search,
                old(self)@.quiescence,
                old(self)@.board,
                (final(self)@.completed_depth + 1) as nat,
                0,
                NEG_INF as int,
                POS_INF as int,
                final(self)@.search,
            ),
            final(self)@.interruptible == old(self)@.interruptible,
    {
        self.begin_deepening();
        let limit: u8 = if target_depth == 0 || target_depth > MAX_SEARCH_DEPTH as usize {
            MAX_SEARCH_DEPTH
        } else {
            target_depth as u8
        };
        let ghost first = self@;
        let mut done: u8 = 0;
        while done < limit
            invariant
                self.wf(),
                !self@.aborted,
                done <= limit,
                limit == depth_limit(target_depth),
                first == at_start(old(self)@),
                self@ == after_iterations(first, done as nat),
                self@.board == old(self)@.board,
                self@.quiescence == old(self)@.quiescence,
                self@.interruptible == old(self)@.interruptible,
                self@.completed_depth == done,
                forall|depth: nat|
                    1 <= depth < done ==> !mate_score(
                        #[trigger] after_iterations(first, depth).best_eval as int,
                    ),
            decreases limit - done,
        {
            let completed = self.deepen(target_depth);
            if !completed {
                proof {
                    if !self@.aborted {
                        deepening_ends_at(first, 1, limit as nat, done as nat);
                    }
                }
                return ;
            }
            done = done + 1;
        }
        proof {
            deepening_ends_at(first, 1, limit as nat, done as nat);
        }
    }
}

} // verus!
