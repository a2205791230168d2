//! Move-ordering scores: piece values, the "most valuable victim, least
//! valuable attacker" score and a simplified static exchange test.
use crate::board::{is_capture, piece_at, piece_on, victim, victim_of, Move, PieceKind};
use chess::Board;
use vstd::prelude::*;

verus! {

/// The value of a piece in centipawns, as move ordering counts it (a king
/// counts nothing: it is never taken).
pub open spec fn value_of(k: PieceKind) -> int {
    match k {
        PieceKind::Pawn => 100,
        PieceKind::Knight => 320,
        PieceKind::Bishop => 330,
        PieceKind::Rook => 500,
        PieceKind::Queen => 900,
        PieceKind::King => 0,
    }
}

/// The value of a piece in centipawns.
pub fn piece_value(k: PieceKind) -> (r: i16)
    ensures
        r == value_of(k),
        0 <= r <= 900,
{
    match k {
        PieceKind::Pawn => 100,
        PieceKind::Knight => 320,
        PieceKind::Bishop => 330,
        PieceKind::Rook => 500,
        PieceKind::Queen => 900,
        PieceKind::King => 0,
    }
}

/// The value of what may stand on a square, zero for an empty square.
pub open spec fn value_on(p: Option<PieceKind>) -> int {
    match p {
        Some(k) => value_of(k),
        None => 0,
    }
}

/// The ordering score of a move: sixteen times the victim's value less the
/// attacker's for a capture, plus the gain of a promotion over a pawn.
pub open spec fn mvv_lvv(b: Board, m: Move) -> int {
    let capture = match victim_of(b, m) {
        Some(v) => 16 * value_of(v) - value_on(piece_at(b, m.from)),
        None => 0,
    };
    let promotion = match m.promotion {
        Some(p) => value_of(p) - 100,
        None => 0,
    };
    capture + promotion
}

/// Computes `mvv_lvv`.
pub fn mvv_lvv_score(b: &Board, m: Move) -> (r: i16)
    requires
        m.wf(),
    ensures
        r == mvv_lvv(*b, m),
        -1000 <= r <= 15200,
{
    let attacker = piece_on(b, m.from);
    let mut score: i16 = match victim(b, m) {
        Some(v) => {
            let attacker_value: i16 = match attacker {
                Some(a) => piece_value(a),
                None => 0,
            };
            piece_value(v) * 16 - attacker_value
        },
        None => 0,
    };
    if let Some(p) = m.promotion {
        score = score + piece_value(p) - 100;
    }
    score
}

/// The simplified static exchange test: a capture passes when the victim's
/// value less the attacker's reaches `threshold`; a move that captures
/// nothing passes when the threshold is not positive; a capture from an
/// empty square never passes.
pub open spec fn see_passes(b: Board, m: Move, threshold: int) -> bool {
    match victim_of(b, m) {
        None => threshold <= 0,
        Some(v) => match piece_at(b, m.from) {
            None => false,
            Some(a) => value_of(v) - value_of(a) >= threshold,
        },
    }
}

/// Computes `see_passes`.
pub fn see(b: &Board, m: Move, threshold: i16) -> (r: bool)
    requires
        m.wf(),
    ensures
        r == see_passes(*b, m, threshold as int),
{
    match victim(b, m) {
        None => threshold <= 0,
        Some(v) => match piece_on(b, m.from) {
            None => false,
            Some(a) => piece_value(v) - piece_value(a) >= threshold,
        },
    }
}

/// Whether a move takes nothing, en passant counting as a capture.
pub fn is_quiet_move(b: &Board, m: Move) -> (r: bool)
    requires
        m.wf(),
    ensures
        r == !is_capture(*b, m),
{
    victim(b, m).is_none()
}

} // verus!
