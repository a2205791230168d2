//! A tapered evaluator: material and piece-square tables interpolated
//! between middlegame and endgame by the remaining material, plus pawn
//! structure, bishop pair, rooks on open files, king shelter and, in won
//! endgames, terms that drive the lone king to the edge.
use crate::board::{board_status, color_on, piece_on, side_to_move, PieceKind, Side, Status};
use crate::engine::{mated_in, EvalError, EvaluateEngine};
use crate::negamax::clamp_to_score;
use crate::state::GameState;
use chess::Board;
use vstd::prelude::*;

verus! {

pub const BISHOP_PAIR_BONUS: i32 = 50;
pub const ROOK_OPEN_FILE_BONUS: i32 = 25;
pub const ROOK_SEMI_OPEN_FILE_BONUS: i32 = 15;
pub const DOUBLED_PAWN_PENALTY: i32 = -15;
pub const ISOLATED_PAWN_PENALTY: i32 = -20;
pub const KING_SAFETY_PAWN_SHIELD: i32 = 10;
pub const KING_PROXIMITY_BONUS_PER_SQUARE: i32 = 10;
pub const EDGE_RESTRICTION_BONUS_PER_SQUARE: i32 = 30;
pub const MOBILITY_RESTRICTION_BONUS_PER_SQUARE: i32 = 5;
/// The phase from which the king-proximity and edge terms count.
pub const ENDGAME_ACTIVATION_PHASE: i32 = 200;
/// The phase from which the mate-progress term counts.
pub const PURE_ENDGAME_PHASE: i32 = 210;

/// What stands on each square, indexed `rank * 8 + file`.
pub type Squares = Vec<Option<(Side, PieceKind)>>;

/// Rust's truncating division by a positive divisor.
pub open spec fn trunc_div(a: int, d: int) -> int {
    if a >= 0 {
        a / d
    } else {
        -((-a) / d)
    }
}

/// The tapered mix of a middlegame and an endgame value at `phase`
/// (0 = opening, 256 = bare endgame).
pub open spec fn mix(mg: int, eg: int, phase: int) -> int {
    trunc_div(mg * (256 - phase) + eg * phase, 256)
}

/// The passed-pawn bonus by rank, from the pawn owner's side.
pub fn passed_pawn_bonus(rank: usize) -> (r: i32)
    requires
        rank < 8,
    ensures
        0 <= r <= 200,
{
    match rank {
        1 => 10,
        2 => 20,
        3 => 40,
        4 => 70,
        5 => 120,
        6 => 200,
        _ => 0,
    }
}

/// The index of a piece kind in the piece-square tables.
pub open spec fn kind_index(k: PieceKind) -> int {
    match k {
        PieceKind::Pawn => 0,
        PieceKind::Knight => 1,
        PieceKind::Bishop => 2,
        PieceKind::Rook => 3,
        PieceKind::Queen => 4,
        PieceKind::King => 5,
    }
}

fn kind_index_of(k: PieceKind) -> (r: usize)
    ensures
        r == kind_index(k),
        r < 6,
{
    match k {
        PieceKind::Pawn => 0,
        PieceKind::Knight => 1,
        PieceKind::Bishop => 2,
        PieceKind::Rook => 3,
        PieceKind::Queen => 4,
        PieceKind::King => 5,
    }
}

/// The piece-square evaluator, holding its middlegame and endgame tables,
/// six tables of 64 entries each (from White's side, rank 8 first).
pub struct PstEval {
    mg: Vec<i16>,
    eg: Vec<i16>,
}

impl PstEval {
    /// Both tables have six times 64 entries, within the bounds the
    /// arithmetic of the evaluation relies on.
    #[verifier::type_invariant]
    pub closed spec fn wf(&self) -> bool {
        &&& self.mg@.len() == 384
        &&& self.eg@.len() == 384
        &&& forall|i: int| 0 <= i < 384 ==> -60 <= #[trigger] self.mg@[i] <= 60
        &&& forall|i: int| 0 <= i < 384 ==> -60 <= #[trigger] self.eg@[i] <= 80
    }

    /// Mixes a middlegame and an endgame score by the game phase.
    pub fn interpolate(mg_score: i16, eg_score: i16, phase: i16) -> (r: i16)
        requires
            0 <= phase <= 256,
        ensures
            r == mix(mg_score as int, eg_score as int, phase as int),
    {
        proof {
            let m = mg_score as int;
            let e = eg_score as int;
            let p = phase as int;
            assert(-32768 * (256 - p) <= m * (256 - p) <= 32767 * (256 - p)) by (nonlinear_arith)
                requires
                    -32768 <= m <= 32767,
                    0 <= p <= 256,
            ;
            assert(-32768 * p <= e * p <= 32767 * p) by (nonlinear_arith)
                requires
                    -32768 <= e <= 32767,
                    0 <= p <= 256,
            ;
        }
        let num: i32 = mg_score as i32 * (256 - phase as i32) + eg_score as i32 * phase as i32;
        let q: i32 = if num >= 0 {
            num / 256
        } else {
            -((-num) / 256)
        };
        q as i16
    }
}

impl PstEval {
    /// The evaluator with its tables.
    pub fn new() -> (r: PstEval) {
        PstEval { mg: middlegame_tables(), eg: endgame_tables() }
    }
}

/// The middlegame piece-square tables.
#[verifier::rlimit(100)]
fn middlegame_tables() -> (r: Vec<i16>)
    ensures
        r@.len() == 384,
        forall|i: int| 0 <= i < 384 ==> -60 <= #[trigger] r@[i] <= 60,
{
        let t: Vec<i16> = vec![
            // pawn
            0, 0, 0, 0, 0, 0, 0, 0,
            50, 50, 50, 50, 50, 50, 50, 50,
            10, 10, 20, 30, 30, 20, 10, 10,
            5, 5, 10, 25, 25, 10, 5, 5,
            0, 0, 0, 20, 20, 0, 0, 0,
            5, -5, -10, 0, 0, -10, -5, 5,
            5, 10, 10, -20, -20, 10, 10, 5,
            0, 0, 0, 0, 0, 0, 0, 0,
            // knight
            -50, -40, -30, -30, -30, -30, -40, -50,
            -40, -20, 0, 0, 0, 0, -20, -40,
            -30, 0, 10, 15, 15, 10, 0, -30,
            -30, 5, 15, 20, 20, 15, 5, -30,
            -30, 0, 15, 20, 20, 15, 0, -30,
            -30, 5, 10, 15, 15, 10, 5, -30,
            -40, -20, 0, 5, 5, 0, -20, -40,
            -50, -40, -30, -30, -30, -30, -40, -50,
            // bishop
            -20, -10, -10, -10, -10, -10, -10, -20,
            -10, 0, 0, 0, 0, 0, 0, -10,
            -10, 0, 5, 10, 10, 5, 0, -10,
            -10, 5, 5, 10, 10, 5, 5, -10,
            -10, 0, 10, 10, 10, 10, 0, -10,
            -10, 10, 10, 10, 10, 10, 10, -10,
            -10, 5, 0, 0, 0, 0, 5, -10,
            -20, -10, -10, -10, -10, -10, -10, -20,
            // rook
            0, 0, 0, 0, 0, 0, 0, 0,
            5, 10, 10, 10, 10, 10, 10, 5,
            -5, 0, 0, 0, 0, 0, 0, -5,
            -5, 0, 0, 0, 0, 0, 0, -5,
            -5, 0, 0, 0, 0, 0, 0, -5,
            -5, 0, 0, 0, 0, 0, 0, -5,
            -5, 0, 0, 0, 0, 0, 0, -5,
            0, 0, 0, 5, 5, 0, 0, 0,
            // queen
            -20, -10, -10, -5, -5, -10, -10, -20,
            -10, 0, 0, 0, 0, 0, 0, -10,
            -10, 0, 5, 5, 5, 5, 0, -10,
            -5, 0, 5, 5, 5, 5, 0, -5,
            0, 0, 5, 5, 5, 5, 0, -5,
            -10, 5, 5, 5, 5, 5, 0, -10,
            -10, 0, 5, 0, 0, 0, 0, -10,
            -20, -10, -10, -5, -5, -10, -10, -20,
            // king
            -30, -40, -40, -50, -50, -40, -40, -30,
            -30, -40, -40, -50, -50, -40, -40, -30,
            -30, -40, -40, -50, -50, -40, -40, -30,
            -30, -40, -40, -50, -50, -40, -40, -30,
            -20, -30, -30, -40, -40, -30, -30, -20,
            -10, -20, -20, -20, -20, -20, -20, -10,
            20, 20, 0, 0, 0, 0, 20, 20,
            20, 30, 10, 0, 0, 10, 30, 20,
        ];
    t
}

/// The endgame piece-square tables.
#[verifier::rlimit(100)]
fn endgame_tables() -> (r: Vec<i16>)
    ensures
        r@.len() == 384,
        forall|i: int| 0 <= i < 384 ==> -60 <= #[trigger] r@[i] <= 80,
{
        let t: Vec<i16> = vec![
            // pawn
            0, 0, 0, 0, 0, 0, 0, 0,
            80, 80, 80, 80, 80, 80, 80, 80,
            50, 50, 50, 50, 50, 50, 50, 50,
            30, 30, 30, 30, 30, 30, 30, 30,
            20, 20, 20, 20, 20, 20, 20, 20,
            10, 10, 10, 10, 10, 10, 10, 10,
            10, 10, 10, 10, 10, 10, 10, 10,
            0, 0, 0, 0, 0, 0, 0, 0,
            // knight
            -50, -40, -30, -30, -30, -30, -40, -50,
            -40, -20, 0, 0, 0, 0, -20, -40,
            -30, 0, 10, 15, 15, 10, 0, -30,
            -30, 5, 15, 20, 20, 15, 5, -30,
            -30, 0, 15, 20, 20, 15, 0, -30,
            -30, 5, 10, 15, 15, 10, 5, -30,
            -40, -20, 0, 5, 5, 0, -20, -40,
            -50, -40, -30, -30, -30, -30, -40, -50,
            // bishop
            -20, -10, -10, -10, -10, -10, -10, -20,
            -10, 0, 0, 0, 0, 0, 0, -10,
            -10, 0, 5, 10, 10, 5, 0, -10,
            -10, 5, 5, 10, 10, 5, 5, -10,
            -10, 0, 10, 10, 10, 10, 0, -10,
            -10, 10, 10, 10, 10, 10, 10, -10,
            -10, 5, 0, 0, 0, 0, 5, -10,
            -20, -10, -10, -10, -10, -10, -10, -20,
            // rook
            0, 0, 0, 0, 0, 0, 0, 0,
            5, 10, 10, 10, 10, 10, 10, 5,
            -5, 0, 0, 0, 0, 0, 0, -5,
            -5, 0, 0, 0, 0, 0, 0, -5,
            -5, 0, 0, 0, 0, 0, 0, -5,
            -5, 0, 0, 0, 0, 0, 0, -5,
            -5, 0, 0, 0, 0, 0, 0, -5,
            0, 0, 0, 5, 5, 0, 0, 0,
            // queen
            -20, -10, -10, -5, -5, -10, -10, -20,
            -10, 0, 0, 0, 0, 0, 0, -10,
            -10, 0, 5, 5, 5, 5, 0, -10,
            -5, 0, 5, 5, 5, 5, 0, -5,
            -5, 0, 5, 5, 5, 5, 0, -5,
            -10, 0, 5, 5, 5, 5, 0, -10,
            -10, 0, 0, 0, 0, 0, 0, -10,
            -20, -10, -10, -5, -5, -10, -10, -20,
            // king
            -50, -40, -30, -20, -20, -30, -40, -50,
            -30, -20, -10, 0, 0, -10, -20, -30,
            -30, -10, 20, 30, 30, 20, -10, -30,
            -30, -10, 30, 40, 40, 30, -10, -30,
            -30, -10, 30, 40, 40, 30, -10, -30,
            -30, -10, 20, 30, 30, 20, -10, -30,
            -30, -30, 0, 0, 0, 0, -30, -30,
            -50, -30, -30, -30, -30, -30, -30, -50,
        ];
    t
}

/// The squares of a board as plain values.
pub open spec fn squares_wf(sq: Seq<Option<(Side, PieceKind)>>) -> bool {
    sq.len() == 64
}

/// Reads what stands on every square.
pub fn read_squares(b: &Board) -> (r: Squares)
    ensures
        squares_wf(r@),
{
    let mut out: Squares = Vec::new();
    let mut i: u8 = 0;
    while i < 64
        invariant
            i <= 64,
            out@.len() == i,
        decreases 64 - i,
    {
        let entry = match (color_on(b, i), piece_on(b, i)) {
            (Some(c), Some(k)) => Some((c, k)),
            _ => None,
        };
        out.push(entry);
        i += 1;
    }
    out
}

/// The number of pieces of a kind (of either colour when `side` is `None`).
pub fn count_of(squares: &Squares, side: Option<Side>, kind: PieceKind) -> (r: i32)
    requires
        squares_wf(squares@),
    ensures
        0 <= r <= 64,
{
    let mut n: i32 = 0;
    let mut i: usize = 0;
    while i < 64
        invariant
            squares_wf(squares@),
            i <= 64,
            0 <= n <= i,
        decreases 64 - i,
    {
        if let Some((c, k)) = squares[i] {
            if k == kind && (side.is_none() || side == Some(c)) {
                n += 1;
            }
        }
        i += 1;
    }
    n
}

/// The square of a side's king, if it has one.
pub fn king_square(squares: &Squares, side: Side) -> (r: Option<usize>)
    requires
        squares_wf(squares@),
    ensures
        r matches Some(s) ==> s < 64,
{
    let mut i: usize = 0;
    while i < 64
        invariant
            squares_wf(squares@),
            i <= 64,
        decreases 64 - i,
    {
        if squares[i] == Some((side, PieceKind::King)) {
            return Some(i);
        }
        i += 1;
    }
    None
}

/// A pawn of `side` stands on file `file` at a rank in `lo..hi`.
pub open spec fn has_pawn_on_file(
    squares: Seq<Option<(Side, PieceKind)>>,
    side: Side,
    file: int,
    lo: int,
    hi: int,
) -> bool {
    exists|rank: int| lo <= rank < hi && #[trigger] pawn_at(squares, side, rank, file)
}

/// A pawn of `side` stands on the square of `rank` and `file`.
pub open spec fn pawn_at(squares: Seq<Option<(Side, PieceKind)>>, side: Side, rank: int, file: int) -> bool {
    squares[rank * 8 + file] == Some((side, PieceKind::Pawn))
}

/// Whether a pawn of `side` stands on file `file` with its rank in `lo..hi`.
pub fn pawn_on_file(squares: &Squares, side: Side, file: usize, lo: usize, hi: usize) -> (r: bool)
    requires
        squares_wf(squares@),
        file < 8,
        hi <= 8,
    ensures
        r == has_pawn_on_file(squares@, side, file as int, lo as int, hi as int),
{
    let mut rank: usize = lo;
    while rank < hi
        invariant
            squares_wf(squares@),
            file < 8,
            hi <= 8,
            lo <= rank,
            forall|q: int| lo <= q < rank ==> !#[trigger] pawn_at(squares@, side, q, file as int),
        decreases hi - rank,
    {
        if let Some((c, PieceKind::Pawn)) = squares[rank * 8 + file] {
            if c == side {
                assert(pawn_at(squares@, side, rank as int, file as int));
                return true;
            }
        }
        assert(!pawn_at(squares@, side, rank as int, file as int));
        rank += 1;
    }
    false
}

/// The number of pawns of `side` on a file.
pub fn pawns_on_file(squares: &Squares, side: Side, file: usize) -> (r: i32)
    requires
        squares_wf(squares@),
        file < 8,
    ensures
        0 <= r <= 8,
{
    let mut n: i32 = 0;
    let mut rank: usize = 0;
    while rank < 8
        invariant
            squares_wf(squares@),
            file < 8,
            rank <= 8,
            0 <= n <= rank,
        decreases 8 - rank,
    {
        if squares[rank * 8 + file] == Some((side, PieceKind::Pawn)) {
            n += 1;
        }
        rank += 1;
    }
    n
}

pub open spec fn opponent_of(side: Side) -> Side {
    match side {
        Side::White => Side::Black,
        Side::Black => Side::White,
    }
}

fn opponent(side: Side) -> (r: Side)
    ensures
        r == opponent_of(side),
{
    match side {
        Side::White => Side::Black,
        Side::Black => Side::White,
    }
}

impl PstEval {
    /// The game phase from the remaining non-pawn material: 0 with all of
    /// it on the board, 256 with none, kept within those bounds.
    pub fn game_phase(squares: &Squares) -> (r: i16)
        requires
            squares_wf(squares@),
        ensures
            0 <= r <= 256,
    {
        let total: i32 = 24;
        let mut phase: i32 = total;
        phase = phase - count_of(squares, None, PieceKind::Knight);
        phase = phase - count_of(squares, None, PieceKind::Bishop);
        phase = phase - 2 * count_of(squares, None, PieceKind::Rook);
        phase = phase - 4 * count_of(squares, None, PieceKind::Queen);
        if phase < 0 {
            phase = 0;
        }
        ((phase * 256 + total / 2) / total) as i16
    }

    /// The table value of a piece of `side` on square `sq`, tapered.
    fn pst_value(&self, kind: PieceKind, sq: usize, side: Side, phase: i16) -> (r: i32)
        requires
            sq < 64,
            0 <= phase <= 256,
        ensures
            -80 <= r <= 80,
    {
        proof {
            use_type_invariant(self);
        }
        let idx = match side {
            Side::White => sq,
            Side::Black => (7 - sq / 8) * 8 + sq % 8,
        };
        let t = kind_index_of(kind) * 64 + idx;
        let m = self.mg[t];
        let e = self.eg[t];
        let v = PstEval::interpolate(m, e, phase);
        proof {
            let (mm, ee, p) = (m as int, e as int, phase as int);
            assert(-80 * 256 <= mm * (256 - p) + ee * p <= 80 * 256) by (nonlinear_arith)
                requires
                    -60 <= mm <= 60,
                    -60 <= ee <= 80,
                    0 <= p <= 256,
            ;
        }
        v as i32
    }

    /// Material and piece-square values, from White's side.
    fn evaluate_material_pst(&self, squares: &Squares, phase: i16) -> (r: i32)
        requires
            squares_wf(squares@),
            0 <= phase <= 256,
        ensures
            -64 * 1000 <= r <= 64 * 1000,
    {
        let mut score: i32 = 0;
        let mut i: usize = 0;
        while i < 64
            invariant
                squares_wf(squares@),
                0 <= phase <= 256,
                i <= 64,
                -1000 * i <= score <= 1000 * i,
            decreases 64 - i,
        {
            if let Some((c, k)) = squares[i] {
                let v = crate::ordering::piece_value(k) as i32 + self.pst_value(k, i, c, phase);
                if c == Side::White {
                    score = score + v;
                } else {
                    score = score - v;
                }
            }
            i += 1;
        }
        score
    }

    /// Whether the pawn of `side` on `sq` has no enemy pawn ahead of it on
    /// its own or an adjacent file.
    fn is_passed_pawn(squares: &Squares, sq: usize, side: Side) -> (r: bool)
        requires
            squares_wf(squares@),
            sq < 64,
        ensures
            r == !exists|f: int|
                sq % 8 - 1 <= f <= sq % 8 + 1 && 0 <= f < 8 && #[trigger] has_pawn_on_file(
                    squares@,
                    opponent_of(side),
                    f,
                    ahead_lo(sq as int, side),
                    ahead_hi(sq as int, side),
                ),
    {
        let file = sq % 8;
        let rank = sq / 8;
        let enemy = opponent(side);
        let (lo, hi) = match side {
            Side::White => (rank + 1, 8),
            Side::Black => (0, rank),
        };
        let lo_file = if file == 0 {
            0
        } else {
            file - 1
        };
        let hi_file = if file == 7 {
            7
        } else {
            file + 1
        };
        let mut f = lo_file;
        while f <= hi_file
            invariant
                squares_wf(squares@),
                hi_file < 8,
                hi <= 8,
                lo_file <= f,
                lo_file as int == if sq % 8 == 0 { 0 } else { sq % 8 - 1 },
                hi_file as int == if sq % 8 == 7 { 7 } else { sq % 8 + 1 },
                enemy == opponent_of(side),
                lo as int == ahead_lo(sq as int, side),
                hi as int == ahead_hi(sq as int, side),
                forall|g: int| lo_file <= g < f ==> !#[trigger] has_pawn_on_file(squares@, enemy, g, lo as int, hi as int),
            decreases hi_file + 1 - f,
        {
            if pawn_on_file(squares, enemy, f, lo, hi) {
                return false;
            }
            f += 1;
        }
        true
    }

    /// Passed, doubled and isolated pawns, from White's side.
    fn evaluate_pawns(squares: &Squares) -> (r: i32)
        requires
            squares_wf(squares@),
        ensures
            -64 * 300 <= r <= 64 * 300,
    {
        let mut score: i32 = 0;
        let mut i: usize = 0;
        while i < 64
            invariant
                squares_wf(squares@),
                i <= 64,
                -300 * i <= score <= 300 * i,
            decreases 64 - i,
        {
            if let Some((side, PieceKind::Pawn)) = squares[i] {
                let file = i % 8;
                let rank = i / 8;
                let mut term: i32 = 0;
                if Self::is_passed_pawn(squares, i, side) {
                    term = term + match side {
                        Side::White => passed_pawn_bonus(rank),
                        Side::Black => passed_pawn_bonus(7 - rank),
                    };
                }
                if pawns_on_file(squares, side, file) > 1 {
                    term = term + DOUBLED_PAWN_PENALTY;
                }
                let isolated = if file == 0 {
                    pawns_on_file(squares, side, 1) == 0
                } else if file == 7 {
                    pawns_on_file(squares, side, 6) == 0
                } else {
                    pawns_on_file(squares, side, file - 1) == 0 && pawns_on_file(
                        squares,
                        side,
                        file + 1,
                    ) == 0
                };
                if isolated {
                    term = term + ISOLATED_PAWN_PENALTY;
                }
                if side == Side::White {
                    score = score + term;
                } else {
                    score = score - term;
                }
            }
            i += 1;
        }
        score
    }

    /// The bishop pair, from White's side.
    fn evaluate_bishops(squares: &Squares) -> (r: i32)
        requires
            squares_wf(squares@),
        ensures
            -50 <= r <= 50,
    {
        let mut score: i32 = 0;
        if count_of(squares, Some(Side::White), PieceKind::Bishop) >= 2 {
            score = score + BISHOP_PAIR_BONUS;
        }
        if count_of(squares, Some(Side::Black), PieceKind::Bishop) >= 2 {
            score = score - BISHOP_PAIR_BONUS;
        }
        score
    }

    /// Rooks on open and half-open files, from White's side.
    fn evaluate_rooks(squares: &Squares) -> (r: i32)
        requires
            squares_wf(squares@),
        ensures
            -64 * 25 <= r <= 64 * 25,
    {
        let mut score: i32 = 0;
        let mut i: usize = 0;
        while i < 64
            invariant
                squares_wf(squares@),
                i <= 64,
                -25 * i <= score <= 25 * i,
            decreases 64 - i,
        {
            if let Some((side, PieceKind::Rook)) = squares[i] {
                let file = i % 8;
                let own = pawns_on_file(squares, side, file) > 0;
                let theirs = pawns_on_file(squares, opponent(side), file) > 0;
                let term: i32 = if !own && !theirs {
                    ROOK_OPEN_FILE_BONUS
                } else if !own {
                    ROOK_SEMI_OPEN_FILE_BONUS
                } else {
                    0
                };
                if side == Side::White {
                    score = score + term;
                } else {
                    score = score - term;
                }
            }
            i += 1;
        }
        score
    }
}

/// The first rank ahead of a pawn of `side` on `sq`.
pub open spec fn ahead_lo(sq: int, side: Side) -> int {
    match side {
        Side::White => sq / 8 + 1,
        Side::Black => 0,
    }
}

/// The rank after the last one ahead of a pawn of `side` on `sq`.
pub open spec fn ahead_hi(sq: int, side: Side) -> int {
    match side {
        Side::White => 8,
        Side::Black => sq / 8,
    }
}

/// The file and rank distance between two squares, added.
pub open spec fn manhattan(a: int, b: int) -> int {
    let df = a % 8 - b % 8;
    let dr = a / 8 - b / 8;
    (if df < 0 { -df } else { df }) + (if dr < 0 { -dr } else { dr })
}

/// The distance of a square to the nearest edge of the board.
pub open spec fn edge_dist(s: int) -> int {
    let f = s % 8;
    let r = s / 8;
    let fd = if f < 7 - f { f } else { 7 - f };
    let rd = if r < 7 - r { r } else { 7 - r };
    if fd < rd { fd } else { rd }
}

/// What decides the endgame terms: which side has mating material against
/// a bare king.
pub struct EndgameContext {
    pub white_winning: bool,
    pub black_winning: bool,
}

impl PstEval {
    /// The file and rank distance between two squares, added.
    pub fn manhattan_distance(a: usize, b: usize) -> (r: i32)
        requires
            a < 64,
            b < 64,
        ensures
            r == manhattan(a as int, b as int),
            0 <= r <= 14,
    {
        let df: i32 = (a % 8) as i32 - (b % 8) as i32;
        let dr: i32 = (a / 8) as i32 - (b / 8) as i32;
        (if df < 0 {
            -df
        } else {
            df
        }) + (if dr < 0 {
            -dr
        } else {
            dr
        })
    }

    /// The distance of a square to the nearest edge.
    pub fn edge_distance(s: usize) -> (r: i32)
        requires
            s < 64,
        ensures
            r == edge_dist(s as int),
            0 <= r <= 3,
    {
        let f: i32 = (s % 8) as i32;
        let r: i32 = (s / 8) as i32;
        let fd = if f < 7 - f {
            f
        } else {
            7 - f
        };
        let rd = if r < 7 - r {
            r
        } else {
            7 - r
        };
        if fd < rd {
            fd
        } else {
            rd
        }
    }

    /// The squares next to `s` that hold something `wanted` accepts: a
    /// pawn of `side` when `count_own_pawns`, otherwise an empty square.
    fn count_around(squares: &Squares, s: usize, side: Side, count_own_pawns: bool) -> (r: i32)
        requires
            squares_wf(squares@),
            s < 64,
        ensures
            0 <= r <= 9,
    {
        let file = (s % 8) as i32;
        let rank = (s / 8) as i32;
        let mut n: i32 = 0;
        let mut dr: i32 = -1;
        while dr <= 1
            invariant
                squares_wf(squares@),
                0 <= file < 8,
                0 <= rank < 8,
                -1 <= dr <= 2,
                0 <= n <= 3 * (dr + 1),
            decreases 2 - dr,
        {
            let mut df: i32 = -1;
            while df <= 1
                invariant
                    squares_wf(squares@),
                    0 <= file < 8,
                    0 <= rank < 8,
                    -1 <= dr <= 1,
                    -1 <= df <= 2,
                    0 <= n <= 3 * (dr + 1) + (df + 1),
                decreases 2 - df,
            {
                let f = file + df;
                let r = rank + dr;
                if (df != 0 || dr != 0) && 0 <= f && f < 8 && 0 <= r && r < 8 {
                    let here = squares[(r * 8 + f) as usize];
                    let hit = if count_own_pawns {
                        here == Some((side, PieceKind::Pawn))
                    } else {
                        here.is_none()
                    };
                    if hit {
                        n += 1;
                    }
                }
                df += 1;
            }
            dr += 1;
        }
        n
    }

    /// Pawns sheltering each king, scaled down as the endgame nears; from
    /// White's side.
    fn evaluate_king_safety(squares: &Squares, phase: i16) -> (r: i32)
        requires
            squares_wf(squares@),
            0 <= phase <= 256,
        ensures
            -90 <= r <= 90,
    {
        if phase > 180 {
            return 0;
        }
        let mut score: i32 = 0;
        if let Some(k) = king_square(squares, Side::White) {
            score = score + KING_SAFETY_PAWN_SHIELD * Self::count_around(squares, k, Side::White, true);
        }
        if let Some(k) = king_square(squares, Side::Black) {
            score = score - KING_SAFETY_PAWN_SHIELD * Self::count_around(squares, k, Side::Black, true);
        }
        let w: i32 = 256 - phase as i32;
        proof {
            assert(-90 * 256 <= score * w <= 90 * 256) by (nonlinear_arith)
                requires
                    -90 <= score <= 90,
                    0 <= w <= 256,
            ;
        }
        let num = score * w;
        if num >= 0 {
            num / 256
        } else {
            -((-num) / 256)
        }
    }

    /// Whether a side has enough to mate: a queen, a rook, two minor pieces
    /// or a pawn.
    fn has_mating_material(squares: &Squares, side: Side) -> bool
        requires
            squares_wf(squares@),
    {
        let minors = count_of(squares, Some(side), PieceKind::Knight) + count_of(
            squares,
            Some(side),
            PieceKind::Bishop,
        );
        count_of(squares, Some(side), PieceKind::Queen) > 0 || count_of(
            squares,
            Some(side),
            PieceKind::Rook,
        ) > 0 || minors >= 2 || count_of(squares, Some(side), PieceKind::Pawn) > 0
    }

    /// Whether a side has anything beside its king.
    fn has_defensive_material(squares: &Squares, side: Side) -> bool
        requires
            squares_wf(squares@),
    {
        count_of(squares, Some(side), PieceKind::Queen) > 0 || count_of(
            squares,
            Some(side),
            PieceKind::Rook,
        ) > 0 || count_of(squares, Some(side), PieceKind::Knight) > 0 || count_of(
            squares,
            Some(side),
            PieceKind::Bishop,
        ) > 0 || count_of(squares, Some(side), PieceKind::Pawn) > 0
    }

    fn analyze_endgame(squares: &Squares) -> EndgameContext
        requires
            squares_wf(squares@),
    {
        EndgameContext {
            white_winning: Self::has_mating_material(squares, Side::White)
                && !Self::has_defensive_material(squares, Side::Black),
            black_winning: Self::has_mating_material(squares, Side::Black)
                && !Self::has_defensive_material(squares, Side::White),
        }
    }

    /// In a won endgame: the kings close together, the lone king near the
    /// edge and short of free squares; from White's side.
    fn evaluate_endgame(squares: &Squares, phase: i16, context: &EndgameContext) -> (r: i32)
        requires
            squares_wf(squares@),
            0 <= phase <= 256,
        ensures
            -200 <= r <= 200,
    {
        if (phase as i32) < ENDGAME_ACTIVATION_PHASE {
            return 0;
        }
        let (wk, bk) = match (king_square(squares, Side::White), king_square(squares, Side::Black)) {
            (Some(w), Some(b)) => (w, b),
            _ => return 0,
        };
        let mut score: i32 = 0;
        let d = Self::manhattan_distance(wk, bk);
        let near = 7 - if d < 7 {
            d
        } else {
            7
        };
        if context.white_winning {
            score = score + near * KING_PROXIMITY_BONUS_PER_SQUARE;
            score = score + (3 - Self::edge_distance(bk)) * EDGE_RESTRICTION_BONUS_PER_SQUARE;
            if phase as i32 >= PURE_ENDGAME_PHASE {
                let free = Self::count_around(squares, bk, Side::Black, false);
                let free = if free > 8 {
                    8
                } else {
                    free
                };
                score = score + (8 - free) * MOBILITY_RESTRICTION_BONUS_PER_SQUARE;
            }
        }
        if context.black_winning {
            score = score - near * KING_PROXIMITY_BONUS_PER_SQUARE;
            score = score - (3 - Self::edge_distance(wk)) * EDGE_RESTRICTION_BONUS_PER_SQUARE;
            if phase as i32 >= PURE_ENDGAME_PHASE {
                let free = Self::count_around(squares, wk, Side::White, false);
                let free = if free > 8 {
                    8
                } else {
                    free
                };
                score = score - (8 - free) * MOBILITY_RESTRICTION_BONUS_PER_SQUARE;
            }
        }
        score
    }

    /// The score of the current position of `state` for the side to move.
    pub fn score(&self, state: &GameState) -> (r: i16)
        requires
            state.wf(),
        ensures
            crate::engine::scores_terminal(*state, r),
    {
        if state.is_draw() {
            return 0;
        }
        let b = state.last_board();
        if board_status(&b) == Status::Checkmate {
            return mated_in(state.ply());
        }
        if state.repetition_count() >= 3 {
            return 0;
        }
        let squares = read_squares(&b);
        let phase = Self::game_phase(&squares);
        let mut score: i32 = self.evaluate_material_pst(&squares, phase);
        score = score + Self::evaluate_pawns(&squares);
        score = score + Self::evaluate_bishops(&squares);
        score = score + Self::evaluate_rooks(&squares);
        score = score + Self::evaluate_king_safety(&squares, phase);
        let context = Self::analyze_endgame(&squares);
        score = score + Self::evaluate_endgame(&squares, phase, &context);
        if side_to_move(&b) == Side::White {
            clamp_to_score(score)
        } else {
            clamp_to_score(-score)
        }
    }
}

impl EvaluateEngine for PstEval {
    open spec fn never_fails() -> bool {
        true
    }

    fn evaluate(&mut self, state: &GameState) -> (r: Result<i16, EvalError>) {
        Ok(self.score(state))
    }
}

} // verus!
