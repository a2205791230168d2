//! Static evaluators: a plain material count here, and a tapered
//! piece-square evaluator in `pst`.
use crate::board::{count_pieces, hash_of, piece_count_of, side_of, status_of, PieceKind, Side, Status};
use crate::engine::{mated_in, mated_score, EvalError, EvaluateEngine};
use crate::negamax::{clamp_to_score, clamp_wide};
use crate::state::GameState;
use chess::Board;
use vstd::prelude::*;

pub use crate::pst::PstEval;

verus! {

pub const PAWN_VALUE: i16 = 100;
pub const KNIGHT_VALUE: i16 = 320;
pub const BISHOP_VALUE: i16 = 330;
pub const ROOK_VALUE: i16 = 500;
pub const QUEEN_VALUE: i16 = 900;

/// White's count of a kind of piece less Black's.
pub open spec fn count_diff(b: Board, kind: PieceKind) -> int {
    piece_count_of(b, Side::White, kind) - piece_count_of(b, Side::Black, kind)
}

/// The material balance from White's point of view.
pub open spec fn material_balance(b: Board) -> int {
    PAWN_VALUE * count_diff(b, PieceKind::Pawn) + KNIGHT_VALUE * count_diff(b, PieceKind::Knight)
        + BISHOP_VALUE * count_diff(b, PieceKind::Bishop) + ROOK_VALUE * count_diff(
        b,
        PieceKind::Rook,
    ) + QUEEN_VALUE * count_diff(b, PieceKind::Queen)
}

/// A score from White's point of view, turned to the side to move's.
pub open spec fn for_side_to_move(b: Board, white_score: int) -> int {
    if side_of(b) == Side::White {
        white_score
    } else {
        -white_score
    }
}

/// The material count's score of a line's current position.
pub open spec fn material_score(state: GameState) -> int {
    let b = state.board;
    if status_of(b) == Status::Stalemate {
        0
    } else if status_of(b) == Status::Checkmate {
        mated_score(state.undo_stack@.len())
    } else if state.repetitions(hash_of(b)) >= 3 {
        0
    } else {
        clamp_wide(for_side_to_move(b, material_balance(b)))
    }
}

/// Scores by material alone.
pub struct CountMaterial;

impl CountMaterial {
    /// The material score of the current position of `state`.
    pub fn score(state: &GameState) -> (r: i16)
        requires
            state.wf(),
        ensures
            r == material_score(*state),
    {
        if state.is_draw() {
            return 0;
        }
        let b = state.last_board();
        if crate::board::board_status(&b) == Status::Checkmate {
            return mated_in(state.ply());
        }
        if state.repetition_count() >= 3 {
            return 0;
        }
        let pawns = count_pieces(&b, Side::White, PieceKind::Pawn) as i32 - count_pieces(
            &b,
            Side::Black,
            PieceKind::Pawn,
        ) as i32;
        let knights = count_pieces(&b, Side::White, PieceKind::Knight) as i32 - count_pieces(
            &b,
            Side::Black,
            PieceKind::Knight,
        ) as i32;
        let bishops = count_pieces(&b, Side::White, PieceKind::Bishop) as i32 - count_pieces(
            &b,
            Side::Black,
            PieceKind::Bishop,
        ) as i32;
        let rooks = count_pieces(&b, Side::White, PieceKind::Rook) as i32 - count_pieces(
            &b,
            Side::Black,
            PieceKind::Rook,
        ) as i32;
        let queens = count_pieces(&b, Side::White, PieceKind::Queen) as i32 - count_pieces(
            &b,
            Side::Black,
            PieceKind::Queen,
        ) as i32;
        let score: i32 = 100 * pawns + 320 * knights + 330 * bishops + 500 * rooks + 900 * queens;
        if crate::board::side_to_move(&b) == Side::White {
            clamp_to_score(score)
        } else {
            clamp_to_score(-score)
        }
    }
}

impl EvaluateEngine for CountMaterial {
    open spec fn static_score(state: GameState) -> Option<i16> {
        Some(material_score(state) as i16)
    }

    open spec fn never_fails() -> bool {
        true
    }

    fn evaluate(&mut self, state: &GameState) -> (r: Result<i16, EvalError>) {
        Ok(CountMaterial::score(state))
    }
}

} // verus!
