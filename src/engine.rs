//! The capabilities the search is built on and offers: an evaluator that
//! scores a position, and a search engine that picks a move.
use crate::board::{hash_of, is_legal, legal_moves, legal_moves_of, status_of, Move, Status};
use crate::state::GameState;
use vstd::prelude::*;

verus! {

/// The score of being checkmated at ply 0.
pub const MATE_VALUE: i16 = 30000;

/// The largest ply that mate scores tell apart; a mate further away scores
/// as one at this ply.
pub const MATE_PLY_CAP: usize = 999;

/// The score of the side to move when it is checkmated after `ply` moves of
/// the game line: mates nearer the root score lower.
pub open spec fn mated_score(ply: nat) -> int {
    -(MATE_VALUE as int) + if ply > MATE_PLY_CAP {
        MATE_PLY_CAP as int
    } else {
        ply as int
    }
}

/// Computes `mated_score`.
pub fn mated_in(ply: usize) -> (r: i16)
    ensures
        r == mated_score(ply as nat),
        r < -29000,
{
    let capped: usize = if ply > MATE_PLY_CAP {
        MATE_PLY_CAP
    } else {
        ply
    };
    capped as i16 - MATE_VALUE
}

/// What every evaluator owes the search on the positions the rules decide:
/// a stalemate, and a position occurring a third time (unless it is
/// checkmate), score 0; a checkmated side to move scores `mated_score` of
/// the ply.
pub open spec fn scores_terminal(state: GameState, v: i16) -> bool {
    &&& status_of(state.board) == Status::Stalemate ==> v == 0
    &&& status_of(state.board) != Status::Checkmate && state.repetitions(hash_of(state.board)) >= 3
        ==> v == 0
    &&& status_of(state.board) == Status::Checkmate ==> v == mated_score(state.undo_stack@.len())
}

/// A failure of an evaluator's backend.
#[derive(Clone, Debug, PartialEq, Eq)]
pub struct EvalError {
    pub message: String,
}

/// A scoring function: a signed centipawn score from the perspective of the
/// side to move, positive when it stands better.
pub trait EvaluateEngine {
    /// The score evaluators of this type give a line's position, for a type
    /// whose score depends on the line alone and is stated; `None` leaves it
    /// unstated.
    open spec fn static_score(state: GameState) -> Option<i16> {
        None
    }

    /// The error evaluators of this type give on a line, for a type that
    /// states it; `None` leaves it unstated.
    open spec fn stated_error(state: GameState) -> Option<EvalError> {
        None
    }

    /// Whether evaluators of this type never fail.
    open spec fn never_fails() -> bool {
        false
    }

    fn evaluate(&mut self, state: &GameState) -> (r: Result<i16, EvalError>)
        requires
            state.wf(),
        ensures
            r matches Ok(v) ==> scores_terminal(*state, v),
            Self::static_score(*state) matches Some(w) ==> r == Ok::<i16, EvalError>(w),
            Self::never_fails() ==> r is Ok,
            Self::stated_error(*state) matches Some(e) ==> r == Err::<i16, EvalError>(e),
    ;
}

/// Time-control information, in milliseconds; `None` means unlimited.
#[derive(Clone, Copy, Debug, PartialEq, Eq)]
pub struct TimeInfo {
    pub move_time: Option<u64>,
    pub white_time: Option<u64>,
    pub black_time: Option<u64>,
    pub white_increment: Option<u64>,
    pub black_increment: Option<u64>,
    pub moves_to_go: Option<u8>,
}

impl Default for TimeInfo {
    /// No time limit at all.
    fn default() -> (r: TimeInfo)
        ensures
            r.move_time is None && r.white_time is None && r.black_time is None
                && r.white_increment is None && r.black_increment is None && r.moves_to_go is None,
    {
        TimeInfo {
            move_time: None,
            white_time: None,
            black_time: None,
            white_increment: None,
            black_increment: None,
            moves_to_go: None,
        }
    }
}

/// The most plies a game line may hold before a search starts from it.
pub const MAX_GAME_PLY: usize = 1000000000;

/// A move-picking engine.
pub trait SearchEngine<E: EvaluateEngine> {
    /// The engine's own consistency.
    spec fn engine_wf(&self) -> bool;

    /// Whether the engine always returns a move when there is one.
    open spec fn always_moves(&self) -> bool {
        false
    }

    /// Whether the engine holds nothing learnt from earlier positions.
    open spec fn is_cleared(&self) -> bool {
        true
    }

    /// Picks a move for the side to move of `state`; `None` means that the
    /// engine found no move, or resigns.
    fn next_move(&mut self, state: GameState, time_info: &Option<TimeInfo>) -> (r: Option<Move>)
        requires
            old(self).engine_wf(),
            state.wf(),
            state.undo_stack@.len() < MAX_GAME_PLY,
        ensures
            final(self).engine_wf(),
            r matches Some(m) ==> is_legal(state.board, m) && m.wf(),
            legal_moves_of(state.board).len() == 0 ==> r is None,
            old(self).always_moves() && legal_moves_of(state.board).len() > 0 ==> r is Some,
            final(self).always_moves() == old(self).always_moves(),
    ;

    /// Forgets everything learnt while searching earlier positions.
    fn clear_search_state(&mut self)
        requires
            old(self).engine_wf(),
        ensures
            final(self).engine_wf(),
            final(self).is_cleared(),
            final(self).always_moves() == old(self).always_moves(),
    ;

    /// Searches on the opponent's time; by default it does nothing.
    fn ponder(&mut self)
        requires
            old(self).engine_wf(),
        ensures
            final(self).engine_wf(),
    {
    }
}

/// An engine that plays the first legal move it is given.
pub struct AnyMove;

impl<E: EvaluateEngine> SearchEngine<E> for AnyMove {
    open spec fn engine_wf(&self) -> bool {
        true
    }

    open spec fn always_moves(&self) -> bool {
        true
    }

    fn next_move(&mut self, state: GameState, _time_info: &Option<TimeInfo>) -> (r: Option<Move>) {
        let moves = legal_moves(&state.board);
        if moves.len() > 0 {
            proof {
                assert(moves@.contains(moves@[0]));
                assert(moves@[0].wf());
            }
            Some(moves[0])
        } else {
            None
        }
    }

    fn clear_search_state(&mut self) {
    }
}

} // verus!
