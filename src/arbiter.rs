//! Plays two engines against each other and records the game: the result,
//! the moves in standard algebraic notation and a PGN rendering.
use crate::board::{
    after, apply_move, board_status, checkers_count, checkers_of, hash_of, is_capture, is_legal,
    legal_moves, legal_moves_of, piece_at, piece_on, side_of, side_to_move, status_of, Move,
    PieceKind, Side, Status,
};
use crate::engine::{EvaluateEngine, SearchEngine, MAX_GAME_PLY};
use crate::state::{occurrences, GameState, REPETITION_DRAW, START_FEN};
use chess::Board;
use vstd::prelude::*;
use vstd::string::{StrSliceExecFns, StringExecFns};

verus! {

/// The outcome of a game.
#[derive(Clone, Copy, Debug, PartialEq, Eq, Structural)]
pub enum GameResult {
    WhiteWins,
    BlackWins,
    /// Stalemate, threefold repetition or the move limit.
    Draw,
}

/// The PGN result token of an outcome.
pub open spec fn result_text(r: GameResult) -> Seq<char> {
    match r {
        GameResult::WhiteWins => seq!['1', '-', '0'],
        GameResult::BlackWins => seq!['0', '-', '1'],
        GameResult::Draw => seq!['1', '/', '2', '-', '1', '/', '2'],
    }
}

impl GameResult {
    /// The PGN result token: "1-0", "0-1" or "1/2-1/2".
    pub fn to_string(&self) -> (r: String)
        ensures
            r@ == result_text(*self),
    {
        let s = match self {
            GameResult::WhiteWins => "1-0",
            GameResult::BlackWins => "0-1",
            GameResult::Draw => "1/2-1/2",
        };
        proof {
            reveal_strlit("1-0");
            reveal_strlit("0-1");
            reveal_strlit("1/2-1/2");
        }
        String::from_str(s)
    }
}

/// The outcome when `loser` has lost.
pub open spec fn win_against(loser: Side) -> GameResult {
    match loser {
        Side::White => GameResult::BlackWins,
        Side::Black => GameResult::WhiteWins,
    }
}

fn win_for_opponent_of(loser: Side) -> (r: GameResult)
    ensures
        r == win_against(loser),
{
    match loser {
        Side::White => GameResult::BlackWins,
        Side::Black => GameResult::WhiteWins,
    }
}

/// A recorded game: its starting FEN, its moves in standard algebraic
/// notation, its result and its tags.
#[derive(Clone, Debug)]
pub struct Pgn {
    pub fen: String,
    pub moves: Vec<String>,
    pub result: GameResult,
    pub tags: Vec<(String, String)>,
}

impl Pgn {
    /// A record without tags.
    pub fn new(fen: String, moves: Vec<String>, result: GameResult) -> (r: Pgn)
        ensures
            r.fen@ == fen@,
            r.moves@ == moves@,
            r.result == result,
            r.tags@.len() == 0,
    {
        Pgn { fen, moves, result, tags: Vec::new() }
    }

    /// Appends a tag.
    pub fn add_tag(&mut self, key: String, value: String)
        ensures
            final(self).tags@ == old(self).tags@.push((key, value)),
            final(self).fen == old(self).fen,
            final(self).moves == old(self).moves,
            final(self).result == old(self).result,
    {
        self.tags.push((key, value));
    }
}

/// The decimal digit character of `d < 10`.
pub open spec fn digit_char(d: nat) -> char {
    if d == 0 { '0' } else if d == 1 { '1' } else if d == 2 { '2' } else if d == 3 { '3' }
    else if d == 4 { '4' } else if d == 5 { '5' } else if d == 6 { '6' } else if d == 7 { '7' }
    else if d == 8 { '8' } else { '9' }
}

/// The decimal notation of a natural number.
pub open spec fn decimal(n: nat) -> Seq<char>
    decreases n,
{
    if n < 10 {
        seq![digit_char(n)]
    } else {
        decimal(n / 10).push(digit_char(n % 10))
    }
}

fn digit_str(d: usize) -> (r: &'static str)
    requires
        d < 10,
    ensures
        r@ == seq![digit_char(d as nat)],
{
    proof {
        reveal_strlit("0");
        reveal_strlit("1");
        reveal_strlit("2");
        reveal_strlit("3");
        reveal_strlit("4");
        reveal_strlit("5");
        reveal_strlit("6");
        reveal_strlit("7");
        reveal_strlit("8");
        reveal_strlit("9");
    }
    match d {
        0 => "0",
        1 => "1",
        2 => "2",
        3 => "3",
        4 => "4",
        5 => "5",
        6 => "6",
        7 => "7",
        8 => "8",
        _ => "9",
    }
}

/// Writes a natural number in decimal.
pub fn decimal_string(n: usize) -> (r: String)
    ensures
        r@ == decimal(n as nat),
    decreases n,
{
    if n < 10 {
        String::from_str(digit_str(n))
    } else {
        let mut s = decimal_string(n / 10);
        s.append(digit_str(n % 10));
        s
    }
}

/// A PGN tag line: `[key "value"]` and a line break.
pub open spec fn tag_line(key: Seq<char>, value: Seq<char>) -> Seq<char> {
    seq!['['] + key + seq![' ', '"'] + value + seq!['"', ']', '\n']
}

/// The tag lines of a list of tags, in order.
pub open spec fn tags_text(tags: Seq<(String, String)>) -> Seq<char>
    decreases tags.len(),
{
    if tags.len() == 0 {
        Seq::empty()
    } else {
        tags_text(tags.drop_last()) + tag_line(tags.last().0@, tags.last().1@)
    }
}

/// The words of a move list: a move number before each of White's moves.
pub open spec fn move_words(moves: Seq<String>) -> Seq<Seq<char>>
    decreases moves.len(),
{
    if moves.len() == 0 {
        Seq::empty()
    } else {
        let i = (moves.len() - 1) as nat;
        let last = moves.last()@;
        if i % 2 == 0 {
            move_words(moves.drop_last()) + seq![decimal(i / 2 + 1).push('.'), last]
        } else {
            move_words(moves.drop_last()).push(last)
        }
    }
}

/// Adds a word to text wrapped at 80 characters: `acc` holds the finished
/// lines and the line being filled.
pub open spec fn wrap_step(acc: (Seq<char>, Seq<char>), w: Seq<char>) -> (Seq<char>, Seq<char>) {
    let (done, line) = acc;
    let (done2, line2) = if line.len() + w.len() + 1 > 80 {
        (done + line.push('\n'), Seq::<char>::empty())
    } else {
        (done, line)
    };
    (done2, if line2.len() > 0 { line2.push(' ') + w } else { w })
}

/// A list of words wrapped at 80 characters.
pub open spec fn wrap(words: Seq<Seq<char>>) -> (Seq<char>, Seq<char>)
    decreases words.len(),
{
    if words.len() == 0 {
        (Seq::empty(), Seq::empty())
    } else {
        wrap_step(wrap(words.drop_last()), words.last())
    }
}

/// The PGN text of a record: the tags, the FEN and SetUp tags unless the
/// game starts from the standard position, the Result tag, an empty line,
/// and the numbered moves and the result wrapped at 80 characters.
pub open spec fn pgn_text(p: Pgn) -> Seq<char> {
    let start = if p.fen@ != START_FEN@ {
        tag_line(seq!['F', 'E', 'N'], p.fen@) + tag_line(seq!['S', 'e', 't', 'U', 'p'], seq!['1'])
    } else {
        Seq::empty()
    };
    let header = tags_text(p.tags@) + start + tag_line(
        seq!['R', 'e', 's', 'u', 'l', 't'],
        result_text(p.result),
    ) + seq!['\n'];
    let (done, line) = wrap(move_words(p.moves@).push(result_text(p.result)));
    header + done + if line.len() > 0 { line.push('\n') } else { Seq::empty() }
}

/// Appends `tag_line(key, value)`.
fn push_tag(out: &mut String, key: &str, value: &str)
    ensures
        final(out)@ == old(out)@ + tag_line(key@, value@),
{
    proof {
        reveal_strlit("[");
        reveal_strlit(" \"");
        reveal_strlit("\"]\n");
    }
    out.append("[");
    out.append(key);
    out.append(" \"");
    out.append(value);
    out.append("\"]\n");
    assert(final(out)@ =~= old(out)@ + tag_line(key@, value@)) by {
        assert(out@ =~= old(out)@ + tag_line(key@, value@));
    }
}

/// Feeds one word to the wrapping of `(done, line)`.
fn wrap_word(done: &mut String, line: &mut String, w: &str)
    ensures
        (final(done)@, final(line)@) == wrap_step((old(done)@, old(line)@), w@),
{
    proof {
        reveal_strlit("\n");
        reveal_strlit(" ");
    }
    let line_len = line.as_str().unicode_len();
    let w_len = w.unicode_len();
    if line_len as u128 + w_len as u128 + 1 > 80 {
        done.append(line.as_str());
        done.append("\n");
        *line = String::new();
    }
    if line.as_str().unicode_len() > 0 {
        line.append(" ");
    }
    line.append(w);
    proof {
        let (d2, l2) = wrap_step((old(done)@, old(line)@), w@);
        assert(done@ =~= d2);
        assert(line@ =~= l2);
    }
}

impl Pgn {
    /// The PGN text of the record.
    pub fn to_string(&self) -> (r: String)
        ensures
            r@ == pgn_text(*self),
    {
        proof {
            reveal_strlit("FEN");
            reveal_strlit("SetUp");
            reveal_strlit("1");
            reveal_strlit("Result");
            reveal_strlit("\n");
            reveal_strlit(".");
        }
        let mut out = String::new();
        let mut i: usize = 0;
        while i < self.tags.len()
            invariant
                i <= self.tags@.len(),
                out@ == tags_text(self.tags@.take(i as int)),
            decreases self.tags@.len() - i,
        {
            let tag = &self.tags[i];
            push_tag(&mut out, tag.0.as_str(), tag.1.as_str());
            proof {
                assert(self.tags@.take(i + 1).drop_last() =~= self.tags@.take(i as int));
            }
            i += 1;
        }
        proof {
            assert(self.tags@.take(self.tags@.len() as int) =~= self.tags@);
        }
        let start = String::from_str(START_FEN);
        if !(self.fen == start) {
            push_tag(&mut out, "FEN", self.fen.as_str());
            push_tag(&mut out, "SetUp", "1");
        }
        let result = self.result.to_string();
        push_tag(&mut out, "Result", result.as_str());
        out.append("\n");
        let ghost header = out@;

        let mut done = String::new();
        let mut line = String::new();
        let mut k: usize = 0;
        while k < self.moves.len()
            invariant
                k <= self.moves@.len(),
                (done@, line@) == wrap(move_words(self.moves@.take(k as int))),
            decreases self.moves@.len() - k,
        {
            let ghost before = move_words(self.moves@.take(k as int));
            proof {
                assert(self.moves@.take(k + 1).drop_last() =~= self.moves@.take(k as int));
                assert(self.moves@.take(k + 1).last() == self.moves@[k as int]);
            }
            if k % 2 == 0 {
                let mut number = decimal_string(k / 2 + 1);
                number.append(".");
                proof {
                    reveal_strlit(".");
                }
                assert(number@ =~= decimal((k / 2 + 1) as nat).push('.'));
                wrap_word(&mut done, &mut line, number.as_str());
                wrap_word(&mut done, &mut line, self.moves[k].as_str());
                proof {
                    let ws = move_words(self.moves@.take(k + 1));
                    assert(ws =~= before + seq![decimal((k / 2 + 1) as nat).push('.'), self.moves@[k as int]@]);
                    assert(ws.drop_last() =~= before.push(decimal((k / 2 + 1) as nat).push('.')));
                    assert(ws.drop_last().drop_last() =~= before);
                    assert(ws.last() == self.moves@[k as int]@);
                    assert(ws.drop_last().last() == decimal((k / 2 + 1) as nat).push('.'));
                    assert(wrap(ws.drop_last()) == wrap_step(wrap(before), ws.drop_last().last()));
                    assert(wrap(ws) == wrap_step(wrap(ws.drop_last()), ws.last()));
                }
            } else {
                wrap_word(&mut done, &mut line, self.moves[k].as_str());
                proof {
                    let ws = move_words(self.moves@.take(k + 1));
                    assert(ws =~= before.push(self.moves@[k as int]@));
                    assert(ws.drop_last() =~= before);
                    assert(wrap(ws) == wrap_step(wrap(before), ws.last()));
                }
            }
            k += 1;
        }
        proof {
            assert(self.moves@.take(self.moves@.len() as int) =~= self.moves@);
        }
        let ghost words_before = move_words(self.moves@);
        wrap_word(&mut done, &mut line, result.as_str());
        proof {
            assert(words_before.push(result_text(self.result)).drop_last() =~= words_before);
        }
        out.append(done.as_str());
        if line.as_str().unicode_len() > 0 {
            out.append(line.as_str());
            out.append("\n");
        }
        proof {
            assert(out@ =~= pgn_text(*self));
        }
        out
    }
}

/// The letter of a file, `a` to `h`.
pub open spec fn file_char(f: int) -> char {
    if f == 0 { 'a' } else if f == 1 { 'b' } else if f == 2 { 'c' } else if f == 3 { 'd' }
    else if f == 4 { 'e' } else if f == 5 { 'f' } else if f == 6 { 'g' } else { 'h' }
}

/// The digit of a rank, `1` to `8`.
pub open spec fn rank_char(r: int) -> char {
    if r == 0 { '1' } else if r == 1 { '2' } else if r == 2 { '3' } else if r == 3 { '4' }
    else if r == 4 { '5' } else if r == 5 { '6' } else if r == 6 { '7' } else { '8' }
}

/// The name of a square, such as `e4`.
pub open spec fn square_name(s: int) -> Seq<char> {
    seq![file_char(s % 8), rank_char(s / 8)]
}

/// The letter of a piece in algebraic notation (none for a pawn).
pub open spec fn piece_letter(k: PieceKind) -> Seq<char> {
    match k {
        PieceKind::Pawn => Seq::empty(),
        PieceKind::Knight => seq!['N'],
        PieceKind::Bishop => seq!['B'],
        PieceKind::Rook => seq!['R'],
        PieceKind::Queen => seq!['Q'],
        PieceKind::King => seq!['K'],
    }
}

/// The letter of a promotion piece.
pub open spec fn promotion_letter(k: PieceKind) -> char {
    match k {
        PieceKind::Queen => 'Q',
        PieceKind::Rook => 'R',
        PieceKind::Bishop => 'B',
        PieceKind::Knight => 'N',
        _ => '?',
    }
}

/// Another legal move of the same kind of piece to the same square.
pub open spec fn is_rival(b: Board, m: Move, other: Move) -> bool {
    &&& is_legal(b, other)
    &&& other.from < 64
    &&& piece_at(b, other.from) == piece_at(b, m.from)
    &&& other.to == m.to
    &&& other.from != m.from
}

/// What tells a move apart from its rivals: nothing, the origin's file,
/// its rank, or both.
pub open spec fn disambiguation(b: Board, m: Move) -> Seq<char> {
    let f = m.from % 8;
    let r = m.from / 8;
    if !(exists|o: Move| is_rival(b, m, o)) {
        Seq::empty()
    } else if !(exists|o: Move| is_rival(b, m, o) && o.from % 8 == f) {
        seq![file_char(f as int)]
    } else if !(exists|o: Move| is_rival(b, m, o) && o.from / 8 == r) {
        seq![rank_char(r as int)]
    } else {
        seq![file_char(f as int), rank_char(r as int)]
    }
}

/// The capture mark of a move, if it captures.
pub open spec fn capture_mark(b: Board, m: Move) -> Seq<char> {
    if is_capture(b, m) {
        seq!['x']
    } else {
        Seq::empty()
    }
}

/// Standard algebraic notation without the check mark.
pub open spec fn san_body(b: Board, m: Move) -> Seq<char> {
    match piece_at(b, m.from) {
        Some(PieceKind::King) => {
            if (m.from == 4 && m.to == 6) || (m.from == 60 && m.to == 62) {
                seq!['O', '-', 'O']
            } else if (m.from == 4 && m.to == 2) || (m.from == 60 && m.to == 58) {
                seq!['O', '-', 'O', '-', 'O']
            } else {
                seq!['K'] + capture_mark(b, m) + square_name(m.to as int)
            }
        },
        Some(PieceKind::Pawn) => {
            let prefix = if is_capture(b, m) {
                seq![file_char((m.from % 8) as int), 'x']
            } else {
                Seq::empty()
            };
            let promo = match m.promotion {
                Some(k) => seq!['=', promotion_letter(k)],
                None => Seq::empty(),
            };
            prefix + square_name(m.to as int) + promo
        },
        Some(k) => piece_letter(k) + disambiguation(b, m) + capture_mark(b, m) + square_name(
            m.to as int,
        ),
        None => square_name(m.from as int) + square_name(m.to as int),
    }
}

/// Standard algebraic notation of a legal move, with `+` for check and
/// `#` for mate.
pub open spec fn san_of(b: Board, m: Move) -> Seq<char> {
    let next = after(b, m);
    let check = checkers_of(next) > 0;
    san_body(b, m) + if check && status_of(next) == Status::Checkmate {
        seq!['#']
    } else if check {
        seq!['+']
    } else {
        Seq::empty()
    }
}

fn file_str(f: u8) -> (r: &'static str)
    requires
        f < 8,
    ensures
        r@ == seq![file_char(f as int)],
{
    proof {
        reveal_strlit("a");
        reveal_strlit("b");
        reveal_strlit("c");
        reveal_strlit("d");
        reveal_strlit("e");
        reveal_strlit("f");
        reveal_strlit("g");
        reveal_strlit("h");
    }
    match f {
        0 => "a",
        1 => "b",
        2 => "c",
        3 => "d",
        4 => "e",
        5 => "f",
        6 => "g",
        _ => "h",
    }
}

fn rank_str(r: u8) -> (s: &'static str)
    requires
        r < 8,
    ensures
        s@ == seq![rank_char(r as int)],
{
    proof {
        reveal_strlit("1");
        reveal_strlit("2");
        reveal_strlit("3");
        reveal_strlit("4");
        reveal_strlit("5");
        reveal_strlit("6");
        reveal_strlit("7");
        reveal_strlit("8");
    }
    match r {
        0 => "1",
        1 => "2",
        2 => "3",
        3 => "4",
        4 => "5",
        5 => "6",
        6 => "7",
        _ => "8",
    }
}

fn push_square(out: &mut String, s: u8)
    requires
        s < 64,
    ensures
        final(out)@ == old(out)@ + square_name(s as int),
{
    out.append(file_str(s % 8));
    out.append(rank_str(s / 8));
    assert(out@ =~= old(out)@ + square_name(s as int));
}

fn letter_str(k: PieceKind) -> (r: &'static str)
    ensures
        r@ == piece_letter(k),
{
    proof {
        reveal_strlit("");
        reveal_strlit("N");
        reveal_strlit("B");
        reveal_strlit("R");
        reveal_strlit("Q");
        reveal_strlit("K");
    }
    match k {
        PieceKind::Pawn => "",
        PieceKind::Knight => "N",
        PieceKind::Bishop => "B",
        PieceKind::Rook => "R",
        PieceKind::Queen => "Q",
        PieceKind::King => "K",
    }
}

fn promotion_str(k: PieceKind) -> (r: &'static str)
    ensures
        r@ == seq![promotion_letter(k)],
{
    proof {
        reveal_strlit("Q");
        reveal_strlit("R");
        reveal_strlit("B");
        reveal_strlit("N");
        reveal_strlit("?");
    }
    match k {
        PieceKind::Queen => "Q",
        PieceKind::Rook => "R",
        PieceKind::Bishop => "B",
        PieceKind::Knight => "N",
        _ => "?",
    }
}

/// Appends the disambiguation of a non-pawn, non-king move.
fn push_disambiguation(out: &mut String, b: &Board, m: Move)
    requires
        m.wf(),
    ensures
        final(out)@ == old(out)@ + disambiguation(*b, m),
{
    let legal = legal_moves(b);
    let piece = piece_on(b, m.from);
    let mut any = false;
    let mut same_file = false;
    let mut same_rank = false;
    let mut i: usize = 0;
    while i < legal.len()
        invariant
            m.wf(),
            legal@ == legal_moves_of(*b),
            forall|j: int| 0 <= j < legal@.len() ==> (#[trigger] legal@[j]).wf(),
            piece == piece_at(*b, m.from),
            i <= legal@.len(),
            any == exists|j: int| 0 <= j < i && is_rival(*b, m, #[trigger] legal@[j]),
            same_file == exists|j: int|
                0 <= j < i && is_rival(*b, m, #[trigger] legal@[j]) && legal@[j].from % 8 == m.from
                    % 8,
            same_rank == exists|j: int|
                0 <= j < i && is_rival(*b, m, #[trigger] legal@[j]) && legal@[j].from / 8 == m.from
                    / 8,
        decreases legal@.len() - i,
    {
        let o = legal[i];
        proof {
            assert(legal@.contains(o));
            assert(legal@[i as int].wf());
        }
        if piece_on(b, o.from) == piece && o.to == m.to && o.from != m.from {
            any = true;
            if o.from % 8 == m.from % 8 {
                same_file = true;
            }
            if o.from / 8 == m.from / 8 {
                same_rank = true;
            }
        }
        i += 1;
    }
    proof {
        assert(any == exists|o: Move| is_rival(*b, m, o)) by {
            if exists|o: Move| is_rival(*b, m, o) {
                let o = choose|o: Move| is_rival(*b, m, o);
                let j = choose|j: int| 0 <= j < legal@.len() && legal@[j] == o;
                assert(is_rival(*b, m, legal@[j]));
            }
        }
        assert(same_file == exists|o: Move| is_rival(*b, m, o) && o.from % 8 == m.from % 8) by {
            if exists|o: Move| is_rival(*b, m, o) && o.from % 8 == m.from % 8 {
                let o = choose|o: Move| is_rival(*b, m, o) && o.from % 8 == m.from % 8;
                let j = choose|j: int| 0 <= j < legal@.len() && legal@[j] == o;
                assert(is_rival(*b, m, legal@[j]));
            }
        }
        assert(same_rank == exists|o: Move| is_rival(*b, m, o) && o.from / 8 == m.from / 8) by {
            if exists|o: Move| is_rival(*b, m, o) && o.from / 8 == m.from / 8 {
                let o = choose|o: Move| is_rival(*b, m, o) && o.from / 8 == m.from / 8;
                let j = choose|j: int| 0 <= j < legal@.len() && legal@[j] == o;
                assert(is_rival(*b, m, legal@[j]));
            }
        }
    }
    if !any {
    } else if !same_file {
        out.append(file_str(m.from % 8));
    } else if !same_rank {
        out.append(rank_str(m.from / 8));
    } else {
        out.append(file_str(m.from % 8));
        out.append(rank_str(m.from / 8));
    }
    assert(out@ =~= old(out)@ + disambiguation(*b, m));
}

/// Writes a legal move in standard algebraic notation.
pub fn move_to_san(b: &Board, m: Move) -> (r: String)
    requires
        is_legal(*b, m),
        m.wf(),
    ensures
        r@ == san_of(*b, m),
{
    proof {
        reveal_strlit("O-O");
        reveal_strlit("O-O-O");
        reveal_strlit("K");
        reveal_strlit("x");
        reveal_strlit("=");
        reveal_strlit("#");
        reveal_strlit("+");
    }
    let piece = piece_on(b, m.from);
    let capture = crate::board::victim(b, m).is_some();
    let next = apply_move(b, m);
    let check = checkers_count(&next) > 0;
    let mate = check && board_status(&next) == Status::Checkmate;
    let mut san = String::new();
    match piece {
        Some(PieceKind::King) => {
            if (m.from == 4 && m.to == 6) || (m.from == 60 && m.to == 62) {
                san.append("O-O");
            } else if (m.from == 4 && m.to == 2) || (m.from == 60 && m.to == 58) {
                san.append("O-O-O");
            } else {
                san.append("K");
                if capture {
                    san.append("x");
                }
                push_square(&mut san, m.to);
            }
        },
        Some(PieceKind::Pawn) => {
            if capture {
                san.append(file_str(m.from % 8));
                san.append("x");
            }
            push_square(&mut san, m.to);
            if let Some(k) = m.promotion {
                san.append("=");
                san.append(promotion_str(k));
            }
        },
        Some(k) => {
            san.append(letter_str(k));
            push_disambiguation(&mut san, b, m);
            if capture {
                san.append("x");
            }
            push_square(&mut san, m.to);
        },
        None => {
            push_square(&mut san, m.from);
            push_square(&mut san, m.to);
        },
    }
    assert(san@ =~= san_body(*b, m));
    if mate {
        san.append("#");
    } else if check {
        san.append("+");
    }
    assert(san@ =~= san_of(*b, m));
    san
}

/// Every move of a record is the notation of the move played in the line.
pub open spec fn records_line(moves: Seq<String>, line: GameState) -> bool {
    &&& moves.len() == line.undo_stack@.len()
    &&& forall|i: int|
        0 <= i < moves.len() ==> (#[trigger] moves[i])@ == san_of(
            line.undo_stack@[i].prev_board,
            line.undo_stack@[i].mv,
        )
}

/// The position at index `k` of the line occurs there for the third time
/// (or later) counting from the start.
pub open spec fn reached_thrice_at(line: GameState, k: int) -> bool {
    occurrences(line.hashes().take(k + 1), line.hashes()[k]) >= REPETITION_DRAW
}

/// No position of the line before its last one occurred a third time: a
/// game stops at its first threefold repetition.
pub open spec fn no_earlier_threefold(line: GameState) -> bool {
    forall|k: int| 0 <= k < line.hashes().len() - 1 ==> !#[trigger] reached_thrice_at(line, k)
}

/// Plays `white_engine` against `black_engine` from the position `fen`
/// describes, for at most `max_moves` moves (200 when `None`). The game
/// ends on checkmate (the side that delivered it wins), stalemate, the
/// move limit or a threefold repetition (draws; checked after checkmate and
/// stalemate), or when an engine returns
/// no move (it loses). Fails only when `fen` describes no position.
pub fn play_match<E: EvaluateEngine>(
    white_engine: &mut impl SearchEngine<E>,
    black_engine: &mut impl SearchEngine<E>,
    fen: &str,
    max_moves: Option<usize>,
) -> (r: Result<(GameResult, GameState, Pgn), String>)
    requires
        old(white_engine).engine_wf(),
        old(black_engine).engine_wf(),
    ensures
        r is Err <==> !crate::board::places_both_kings(fen@) || crate::board::parse_fen(fen@)
            is None,
        r matches Ok((result, line, pgn)) ==> {
            &&& line.wf()
            &&& line.undo_stack@.len() > 0 ==> line.undo_stack@[0].prev_board
                == crate::board::parse_fen(fen@).unwrap()
            &&& line.undo_stack@.len() == 0 ==> line.board == crate::board::parse_fen(fen@).unwrap()
            &&& pgn.fen@ == fen@
            &&& pgn.result == result
            &&& pgn.tags@.len() == 0
            &&& records_line(pgn.moves@, line)
            &&& pgn.moves@.len() <= match max_moves {
                Some(n) => n as int,
                None => 200,
            }
            &&& status_of(line.board) == Status::Checkmate ==> result == win_against(
                side_of(line.board),
            )
            &&& status_of(line.board) == Status::Stalemate ==> result == GameResult::Draw
            &&& no_earlier_threefold(line)
            &&& old(white_engine).always_moves() && old(black_engine).always_moves() ==> status_of(
                line.board,
            ) == Status::Ongoing ==> result == GameResult::Draw
            &&& status_of(line.board) == Status::Ongoing && result == win_against(side_of(line.board))
                ==> if side_of(line.board) == Side::White {
                !old(white_engine).always_moves()
            } else {
                !old(black_engine).always_moves()
            }
            &&& status_of(line.board) == Status::Ongoing ==> (result == GameResult::Draw && (
            pgn.moves@.len() == match max_moves {
                Some(n) => n as int,
                None => 200,
            } || line.repetitions(hash_of(line.board)) >= REPETITION_DRAW
                || pgn.moves@.len() >= MAX_GAME_PLY)) || result == win_against(
                side_of(line.board),
            )
        },
        r is Err ==> *final(white_engine) == *old(white_engine) && *final(black_engine)
            == *old(black_engine),
{
    let mut state = match GameState::from_fen(fen) {
        Some(s) => s,
        None => {
            let mut msg = String::from_str("Invalid FEN: ");
            msg.append(fen);
            return Err(msg);
        },
    };
    let ghost start = state.board;
    proof {
        let hs = state.hashes();
        assert(hs.len() == 1);
        assert(hs.take(1) =~= Seq::<u64>::empty().push(hs[0]));
        Seq::<u64>::empty().to_multiset_ensures();
        assert(!reached_thrice_at(state, 0));
    }
    white_engine.clear_search_state();
    black_engine.clear_search_state();
    let limit: usize = match max_moves {
        Some(n) => n,
        None => 200,
    };
    let mut move_list: Vec<String> = Vec::new();
    let mut move_count: usize = 0;
    let mut repeated = false;
    loop
        invariant
            white_engine.engine_wf(),
            black_engine.engine_wf(),
            state.wf(),
            crate::board::parse_fen(fen@) is Some,
            crate::board::places_both_kings(fen@),
            start == crate::board::parse_fen(fen@).unwrap(),
            state.undo_stack@.len() > 0 ==> state.undo_stack@[0].prev_board == start,
            state.undo_stack@.len() == 0 ==> state.board == start,
            records_line(move_list@, state),
            move_count == move_list@.len(),
            move_count <= limit,
            repeated ==> state.repetitions(hash_of(state.board)) >= REPETITION_DRAW,
            no_earlier_threefold(state),
            !repeated ==> !reached_thrice_at(state, state.hashes().len() - 1),
            white_engine.always_moves() == old(white_engine).always_moves(),
            black_engine.always_moves() == old(black_engine).always_moves(),
            limit == match max_moves {
                Some(n) => n,
                None => 200,
            },
        decreases limit - move_count,
    {
        let board = state.last_board();
        let to_move = side_to_move(&board);
        match board_status(&board) {
            Status::Checkmate => {
                let result = win_for_opponent_of(to_move);
                let pgn = Pgn::new(String::from_str(fen), move_list, result);
                return Ok((result, state, pgn));
            },
            Status::Stalemate => {
                let pgn = Pgn::new(String::from_str(fen), move_list, GameResult::Draw);
                return Ok((GameResult::Draw, state, pgn));
            },
            Status::Ongoing => {},
        }
        if repeated || move_count >= limit || move_count >= MAX_GAME_PLY {
            let pgn = Pgn::new(String::from_str(fen), move_list, GameResult::Draw);
            return Ok((GameResult::Draw, state, pgn));
        }
        let best_move = match to_move {
            Side::White => white_engine.next_move(state.duplicate(), &None),
            Side::Black => black_engine.next_move(state.duplicate(), &None),
        };
        let mv = match best_move {
            Some(mv) => mv,
            None => {
                let result = win_for_opponent_of(to_move);
                let pgn = Pgn::new(String::from_str(fen), move_list, result);
                return Ok((result, state, pgn));
            },
        };
        let san = move_to_san(&board, mv);
        move_list.push(san);
        let ghost before = state;
        let repetition_count = state.make_move(mv);
        proof {
            assert forall|i: int| 0 <= i < move_list@.len() implies (#[trigger] move_list@[i])@
                == san_of(state.undo_stack@[i].prev_board, state.undo_stack@[i].mv) by {
                if i < move_list@.len() - 1 {
                    assert(state.undo_stack@[i] == before.undo_stack@[i]);
                }
            }
            let n = before.hashes().len() as int;
            assert(state.positions() =~= before.positions().push(state.board));
            assert(state.hashes() =~= before.hashes().push(hash_of(state.board)));
            assert forall|k: int| 0 <= k < state.hashes().len() - 1 implies !#[trigger] reached_thrice_at(
                state,
                k,
            ) by {
                assert(state.hashes().take(k + 1) =~= before.hashes().take(k + 1));
                assert(state.hashes()[k] == before.hashes()[k]);
                if k < n - 1 {
                    assert(!reached_thrice_at(before, k));
                }
            }
            assert(state.hashes().take(n + 1) =~= state.hashes());
        }
        move_count += 1;
        repeated = repetition_count >= REPETITION_DRAW;
    }
}

} // verus!
