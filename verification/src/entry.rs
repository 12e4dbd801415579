//! What the transposition table remembers of a searched position.

use vstd::prelude::*;
use crate::position::Move;
use crate::searcher::EvalType;

verus! {

/// The result of one search of a position.
#[derive(Clone, Copy, Debug, PartialEq, Eq, Structural, PartialOrd)]
pub struct Entry {
    /// The score that the search gave, with a mate score counted from the
    /// position itself.
    pub value: i32,
    /// The best move that the search found, if it found one.
    pub move_: Option<Move>,
    /// How many plies deep the search went.
    pub depth: u8,
    /// What `value` says of the true score.
    pub node_type: EvalType,
}

impl Entry {
    /// An entry of the given parts.
    pub fn new(value: i32, move_: Option<Move>, depth: u8, node_type: EvalType) -> (entry: Entry)
        ensures
            entry == (Entry { value, move_, depth, node_type }),
    {
        Entry { value, move_, depth, node_type }
    }

    /// The entry of a search that has not looked at anything: an exact score
    /// of zero at depth zero, with no move.
    pub fn new_default() -> (entry: Entry)
        ensures
            entry == (Entry { value: 0, move_: None, depth: 0, node_type: EvalType::Exact }),
    {
        Entry { value: 0, move_: None, depth: 0, node_type: EvalType::Exact }
    }
}

} // verus!
