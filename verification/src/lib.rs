//! Alpha-beta game-tree search for chess positions: a static evaluator, a
//! transposition table, move ordering, quiescence search and iterative
//! deepening.
//!
//! Positions, legal moves and position fingerprints come from the `chess`
//! crate. The module [`position`] holds everything that is taken on trust
//! from it; [`table`] does the same for its cache table. All else is proved:
//! [`evaluation`], [`move_ordering`] and [`searcher`] hold the code and what
//! it computes, [`minimax`] and [`mating`] what follows from that.

pub mod abort;
pub mod entry;
pub mod evaluation;
pub mod mating;
pub mod minimax;
pub mod move_ordering;
pub mod position;
pub mod searcher;
pub mod table;
