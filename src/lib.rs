//! A chess engine core: a reversible game state, staged move ordering, a
//! transposition table and a principal-variation negamax search with
//! quiescence, over the move generator of the `chess` crate; two static
//! evaluators; and an arbiter that plays engines against each other and
//! records the game in PGN.
pub mod board;
pub mod state;
pub mod ordering;
pub mod mv_iter;
pub mod engine;
pub mod negamax;
pub mod evaluation;
pub mod pst;
pub mod arbiter;
