//! The chess rules as this engine consumes them: legal move generation,
//! move application, hashing and board queries, all provided by the
//! `chess` crate. The board itself stays opaque; every query that the
//! search logic makes goes through one of the wrappers below, whose
//! results are named by the spec functions of this module.
use chess::{Board, BoardStatus, ChessMove, Color, MoveGen, Piece, ALL_SQUARES};
use std::str::FromStr;
use vstd::prelude::*;
use vstd::string::StrSliceExecFns;

verus! {

#[verifier::external_type_specification]
#[verifier::external_body]
pub struct ExBoard(chess::Board);

/// Relies on the `Clone` that `chess::Board` derives beside `Copy`: a copy.
pub assume_specification[ <chess::Board as Clone>::clone ](b: &chess::Board) -> (r: chess::Board)
    ensures
        r == *b,
;

/// The kind of a chess piece.
#[derive(Clone, Copy, Debug, PartialEq, Eq, Structural)]
pub enum PieceKind {
    Pawn,
    Knight,
    Bishop,
    Rook,
    Queen,
    King,
}

/// A player colour.
#[derive(Clone, Copy, Debug, PartialEq, Eq, Structural)]
pub enum Side {
    White,
    Black,
}

/// Whether a position is still being played, or how it ended.
#[derive(Clone, Copy, Debug, PartialEq, Eq, Structural)]
pub enum Status {
    Ongoing,
    Stalemate,
    Checkmate,
}

/// A move as plain values: origin and destination squares (0 = a1 .. 63 = h8)
/// and the piece a pawn promotes to, if any.
#[derive(Clone, Copy, Debug, PartialEq, Eq, Structural)]
pub struct Move {
    pub from: u8,
    pub to: u8,
    pub promotion: Option<PieceKind>,
}

impl Move {
    /// Both squares lie on the board.
    pub open spec fn wf(self) -> bool {
        self.from < 64 && self.to < 64
    }
}

/// The legal moves of a position, in generation order.
pub uninterp spec fn legal_moves_of(b: Board) -> Seq<Move>;

/// The 64-bit Zobrist hash of a position.
pub uninterp spec fn hash_of(b: Board) -> u64;

/// The position reached by playing a legal move.
pub uninterp spec fn after(b: Board, m: Move) -> Board;

/// The piece standing on a square, if any.
pub uninterp spec fn piece_at(b: Board, sq: u8) -> Option<PieceKind>;

/// The colour of the piece standing on a square, if any.
pub uninterp spec fn color_at(b: Board, sq: u8) -> Option<Side>;

/// The side to move.
pub uninterp spec fn side_of(b: Board) -> Side;

/// The number of pieces giving check to the side to move.
pub uninterp spec fn checkers_of(b: Board) -> u32;

/// The number of pieces of one kind and colour.
pub uninterp spec fn piece_count_of(b: Board, side: Side, kind: PieceKind) -> u32;

/// The number of pieces on the board, both colours and kings included.
pub uninterp spec fn occupancy_of(b: Board) -> u32;

/// The position a FEN text describes, or `None` where it describes none.
pub uninterp spec fn parse_fen(s: Seq<char>) -> Option<Board>;

/// The status of a position, as the rules define it from its legal moves
/// and from whether the side to move is in check.
pub open spec fn status_of(b: Board) -> Status {
    if legal_moves_of(b).len() > 0 {
        Status::Ongoing
    } else if checkers_of(b) > 0 {
        Status::Checkmate
    } else {
        Status::Stalemate
    }
}

/// Whether a move is legal in a position.
pub open spec fn is_legal(b: Board, m: Move) -> bool {
    legal_moves_of(b).contains(m)
}

/// What a move takes: the piece on its destination square, or a pawn when
/// a pawn moves to another file onto an empty square (en passant).
pub open spec fn victim_of(b: Board, m: Move) -> Option<PieceKind> {
    match piece_at(b, m.to) {
        Some(v) => Some(v),
        None => if piece_at(b, m.from) == Some(PieceKind::Pawn) && m.from % 8 != m.to % 8 {
            Some(PieceKind::Pawn)
        } else {
            None
        },
    }
}

/// Whether a move takes a piece, en passant included.
pub open spec fn is_capture(b: Board, m: Move) -> bool {
    m.to < 64 && victim_of(b, m) is Some
}

/// Computes `victim_of`.
pub fn victim(b: &Board, m: Move) -> (r: Option<PieceKind>)
    requires
        m.wf(),
    ensures
        r == victim_of(*b, m),
{
    match piece_on(b, m.to) {
        Some(v) => Some(v),
        None => {
            if piece_on(b, m.from) == Some(PieceKind::Pawn) && m.from % 8 != m.to % 8 {
                Some(PieceKind::Pawn)
            } else {
                None
            }
        },
    }
}

/// Relies on `chess::MoveGen::new_legal`: the legal moves of the position,
/// each with squares on the board (`Square::to_index` is below 64), none
/// listed twice (each piece's targets are generated once, as a bitboard).
#[verifier::external_body]
pub fn legal_moves(b: &Board) -> (r: Vec<Move>)
    ensures
        r@ == legal_moves_of(*b),
        r@.no_duplicates(),
        forall|i: int| 0 <= i < r@.len() ==> (#[trigger] r@[i]).wf(),
{
    let kind = |p: Piece| match p {
        Piece::Pawn => PieceKind::Pawn,
        Piece::Knight => PieceKind::Knight,
        Piece::Bishop => PieceKind::Bishop,
        Piece::Rook => PieceKind::Rook,
        Piece::Queen => PieceKind::Queen,
        Piece::King => PieceKind::King,
    };
    let to_move = |m: ChessMove| Move {
        from: m.get_source().to_index() as u8,
        to: m.get_dest().to_index() as u8,
        promotion: m.get_promotion().map(kind),
    };
    MoveGen::new_legal(b).map(to_move).collect()
}

/// Relies on `chess::Board::make_move_new`, which panics only on a move
/// that is not legal (one that captures a king).
#[verifier::external_body]
pub fn apply_move(b: &Board, m: Move) -> (r: Board)
    requires
        is_legal(*b, m),
        m.wf(),
    ensures
        r == after(*b, m),
{
    let kind = |p: PieceKind| match p {
        PieceKind::Pawn => Piece::Pawn,
        PieceKind::Knight => Piece::Knight,
        PieceKind::Bishop => Piece::Bishop,
        PieceKind::Rook => Piece::Rook,
        PieceKind::Queen => Piece::Queen,
        PieceKind::King => Piece::King,
    };
    let (from, to) = (ALL_SQUARES[m.from as usize], ALL_SQUARES[m.to as usize]);
    b.make_move_new(ChessMove::new(from, to, m.promotion.map(kind)))
}

/// Relies on `chess::Board::get_hash`.
#[verifier::external_body]
pub fn board_hash(b: &Board) -> (r: u64)
    ensures
        r == hash_of(*b),
{
    b.get_hash()
}

/// Relies on `chess::Board::piece_on`.
#[verifier::external_body]
pub fn piece_on(b: &Board, sq: u8) -> (r: Option<PieceKind>)
    requires
        sq < 64,
    ensures
        r == piece_at(*b, sq),
{
    b.piece_on(ALL_SQUARES[sq as usize]).map(|p| match p {
        Piece::Pawn => PieceKind::Pawn,
        Piece::Knight => PieceKind::Knight,
        Piece::Bishop => PieceKind::Bishop,
        Piece::Rook => PieceKind::Rook,
        Piece::Queen => PieceKind::Queen,
        Piece::King => PieceKind::King,
    })
}

/// Relies on `chess::Board::color_on`.
#[verifier::external_body]
pub fn color_on(b: &Board, sq: u8) -> (r: Option<Side>)
    requires
        sq < 64,
    ensures
        r == color_at(*b, sq),
{
    b.color_on(ALL_SQUARES[sq as usize]).map(|c| match c {
        Color::White => Side::White,
        Color::Black => Side::Black,
    })
}

/// Relies on `chess::Board::side_to_move`.
#[verifier::external_body]
pub fn side_to_move(b: &Board) -> (r: Side)
    ensures
        r == side_of(*b),
{
    match b.side_to_move() {
        Color::White => Side::White,
        Color::Black => Side::Black,
    }
}

/// Relies on `chess::Board::checkers`: the number of checking pieces, a
/// population count of a 64-bit mask.
#[verifier::external_body]
pub fn checkers_count(b: &Board) -> (r: u32)
    ensures
        r == checkers_of(*b),
        r <= 64,
{
    b.checkers().popcnt()
}

/// Relies on `chess::Board::pieces` and `chess::Board::color_combined`: the
/// population count of the intersection of two 64-bit masks.
#[verifier::external_body]
pub fn count_pieces(b: &Board, side: Side, kind: PieceKind) -> (r: u32)
    ensures
        r == piece_count_of(*b, side, kind),
        r <= 64,
{
    let color = match side {
        Side::White => Color::White,
        Side::Black => Color::Black,
    };
    let piece = match kind {
        PieceKind::Pawn => Piece::Pawn,
        PieceKind::Knight => Piece::Knight,
        PieceKind::Bishop => Piece::Bishop,
        PieceKind::Rook => Piece::Rook,
        PieceKind::Queen => Piece::Queen,
        PieceKind::King => Piece::King,
    };
    (b.pieces(piece) & b.color_combined(color)).popcnt()
}

/// Relies on `chess::Board::combined`: the population count of the mask of
/// occupied squares.
#[verifier::external_body]
pub fn occupied_count(b: &Board) -> (r: u32)
    ensures
        r == occupancy_of(*b),
        r <= 64,
{
    b.combined().popcnt()
}

/// Relies on `chess::Board::status`, which decides from the number of legal
/// moves and from the checkers of the side to move.
#[verifier::external_body]
pub fn board_status(b: &Board) -> (r: Status)
    ensures
        r == status_of(*b),
{
    match b.status() {
        BoardStatus::Ongoing => Status::Ongoing,
        BoardStatus::Stalemate => Status::Stalemate,
        BoardStatus::Checkmate => Status::Checkmate,
    }
}

/// The number of empty squares a FEN digit stands for, 0 for any other
/// character.
pub open spec fn run_length(c: char) -> int {
    if c == '1' { 1 } else if c == '2' { 2 } else if c == '3' { 3 } else if c == '4' { 4 }
    else if c == '5' { 5 } else if c == '6' { 6 } else if c == '7' { 7 } else if c == '8' { 8 }
    else { 0 }
}

/// Whether a character names a piece in FEN.
pub open spec fn is_piece_char(c: char) -> bool {
    c == 'p' || c == 'n' || c == 'b' || c == 'r' || c == 'q' || c == 'k' || c == 'P' || c == 'N'
        || c == 'B' || c == 'R' || c == 'Q' || c == 'K'
}

/// Reads the piece field of a FEN text (up to the first space) from index
/// `i`, on rank `rank` (0 = the eighth) at file `file`, having seen a white
/// king when `wk` and a black one when `bk`: the field fills exactly eight
/// ranks of eight squares and places a king of each colour.
pub open spec fn piece_field_from(
    s: Seq<char>,
    i: int,
    rank: int,
    file: int,
    wk: bool,
    bk: bool,
) -> bool
    decreases s.len() - i,
{
    if i < 0 || i >= s.len() || s[i] == ' ' {
        rank == 7 && file == 8 && wk && bk
    } else {
        let c = s[i];
        if c == '/' {
            file == 8 && rank < 7 && piece_field_from(s, i + 1, rank + 1, 0, wk, bk)
        } else if run_length(c) > 0 {
            file + run_length(c) <= 8 && piece_field_from(s, i + 1, rank, file + run_length(c), wk, bk)
        } else if is_piece_char(c) {
            file < 8 && piece_field_from(s, i + 1, rank, file + 1, wk || c == 'K', bk || c == 'k')
        } else {
            false
        }
    }
}

/// A FEN text whose piece field describes a full board with both kings:
/// every square is written once, so neither king can be lost.
pub open spec fn places_both_kings(s: Seq<char>) -> bool {
    piece_field_from(s, 0, 0, 0, false, false)
}

/// Computes `places_both_kings`.
pub fn fen_places_both_kings(s: &str) -> (r: bool)
    ensures
        r == places_both_kings(s@),
{
    let n = s.unicode_len();
    let mut i: usize = 0;
    let mut rank: u8 = 0;
    let mut file: u8 = 0;
    let mut wk = false;
    let mut bk = false;
    while i < n
        invariant
            n == s@.len(),
            i <= n,
            rank <= 7,
            file <= 8,
            places_both_kings(s@) == piece_field_from(s@, i as int, rank as int, file as int, wk, bk),
        decreases n - i,
    {
        let c = s.get_char(i);
        if c == ' ' {
            return rank == 7 && file == 8 && wk && bk;
        }
        let run: u8 = if c == '1' { 1 } else if c == '2' { 2 } else if c == '3' { 3 }
            else if c == '4' { 4 } else if c == '5' { 5 } else if c == '6' { 6 }
            else if c == '7' { 7 } else if c == '8' { 8 } else { 0 };
        if c == '/' {
            if file != 8 || rank >= 7 {
                return false;
            }
            rank = rank + 1;
            file = 0;
        } else if run > 0 {
            if file + run > 8 {
                return false;
            }
            file = file + run;
        } else if c == 'p' || c == 'n' || c == 'b' || c == 'r' || c == 'q' || c == 'k' || c == 'P'
            || c == 'N' || c == 'B' || c == 'R' || c == 'Q' || c == 'K' {
            if file >= 8 {
                return false;
            }
            file = file + 1;
            wk = wk || c == 'K';
            bk = bk || c == 'k';
        } else {
            return false;
        }
        i += 1;
    }
    rank == 7 && file == 8 && wk && bk
}

/// Relies on `chess::Board::from_str`: reads a position in FEN. On a piece
/// field with both kings on a full board it does not fault: the pin
/// computation it makes before its sanity check needs the king of the side
/// to move.
#[verifier::external_body]
pub fn board_from_fen(s: &str) -> (r: Option<Board>)
    requires
        places_both_kings(s@),
    ensures
        r == parse_fen(s@),
{
    Board::from_str(s).ok()
}

/// The index of the square on `file` (0 = a) and `rank` (0 = first).
pub fn square_at(file: u8, rank: u8) -> (r: u8)
    requires
        file < 8,
        rank < 8,
    ensures
        r == rank * 8 + file,
        r < 64,
{
    rank * 8 + file
}

/// The file of a square, 0 = a.
pub fn file_of(sq: u8) -> (r: u8)
    ensures
        r == sq % 8,
        r < 8,
{
    sq % 8
}

/// The rank of a square, 0 = first.
pub fn rank_of(sq: u8) -> (r: u8)
    requires
        sq < 64,
    ensures
        r == sq / 8,
        r < 8,
{
    sq / 8
}

} // verus!
