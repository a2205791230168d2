//! The game state: a current position with an undo stack and a table of
//! how often each position hash has occurred in the game line.
use crate::board::{
    after, apply_move, board_from_fen, board_hash, board_status, fen_places_both_kings, hash_of,
    is_legal, parse_fen, places_both_kings, side_of, side_to_move, status_of, Move, Side, Status,
};
use chess::Board;
use std::collections::HashMap;
use vstd::prelude::*;

verus! {

broadcast use vstd::std_specs::hash::group_hash_axioms;

/// The FEN text of the standard starting position.
pub const START_FEN: &'static str = "rnbqkbnr/pppppppp/8/8/8/8/PPPPPPPP/RNBQKBNR w KQkq - 0 1";

/// A repetition count at which a position is drawn.
pub const REPETITION_DRAW: u8 = 3;

/// What `undo_last_move` needs to restore the position before a move.
#[derive(Clone, Copy)]
pub struct UndoInfo {
    pub mv: Move,
    pub prev_board: Board,
}

/// A game line: the current position, the positions before it, and how
/// often each position hash occurs among them.
#[derive(Clone)]
pub struct GameState {
    pub board: Board,
    pub undo_stack: Vec<UndoInfo>,
    pub seen_positions: HashMap<u64, usize>,
}

/// How often `h` occurs in `hashes`.
pub open spec fn occurrences(hashes: Seq<u64>, h: u64) -> nat {
    hashes.to_multiset().count(h)
}

impl GameState {
    /// Every position of the line, the current one last.
    pub open spec fn positions(&self) -> Seq<Board> {
        self.undo_stack@.map_values(|u: UndoInfo| u.prev_board).push(self.board)
    }

    /// The hashes of every position of the line, the current one last.
    pub open spec fn hashes(&self) -> Seq<u64> {
        self.positions().map_values(|b: Board| hash_of(b))
    }

    /// The moves played along the line.
    pub open spec fn moves(&self) -> Seq<Move> {
        self.undo_stack@.map_values(|u: UndoInfo| u.mv)
    }

    /// How often a position with hash `h` has occurred along the line.
    pub open spec fn repetitions(&self, h: u64) -> nat {
        occurrences(self.hashes(), h)
    }

    /// The table of seen positions counts the hashes of the line exactly,
    /// and each stored move leads from its position to the next one.
    pub open spec fn wf(&self) -> bool {
        &&& forall|h: u64| #[trigger]
            self.repetitions(h) == if self.seen_positions@.contains_key(h) {
                self.seen_positions@[h] as nat
            } else {
                0
            }
        &&& forall|i: int|
            0 <= i < self.undo_stack@.len() ==> is_legal(
                #[trigger] self.undo_stack@[i].prev_board,
                self.undo_stack@[i].mv,
            ) && self.positions()[i + 1] == after(
                self.undo_stack@[i].prev_board,
                self.undo_stack@[i].mv,
            )
    }

    /// Starts a line at `board`, which is counted once.
    pub fn from_board(board: Board) -> (r: GameState)
        ensures
            r.wf(),
            r.board == board,
            r.undo_stack@.len() == 0,
            r.repetitions(hash_of(board)) == 1,
    {
        let mut seen_positions: HashMap<u64, usize> = HashMap::new();
        let h = board_hash(&board);
        seen_positions.insert(h, 1);
        let r = GameState { board, undo_stack: Vec::new(), seen_positions };
        proof {
            let hs = r.hashes();
            assert(hs =~= seq![h]);
            assert(seq![h] =~= Seq::<u64>::empty().push(h));
            Seq::<u64>::empty().to_multiset_ensures();
            assert forall|k: u64| #[trigger]
                r.repetitions(k) == if r.seen_positions@.contains_key(k) {
                    r.seen_positions@[k] as nat
                } else {
                    0
                } by {}
        }
        r
    }

    /// Starts a line at the position a FEN text describes; `None` where the
    /// text describes no position, or its piece field is not a full board
    /// with both kings.
    pub fn from_fen(fen: &str) -> (r: Option<GameState>)
        ensures
            r is Some <==> places_both_kings(fen@) && parse_fen(fen@) is Some,
            r matches Some(s) ==> s.wf() && s.board == parse_fen(fen@).unwrap()
                && s.undo_stack@.len() == 0,
    {
        if !fen_places_both_kings(fen) {
            return None;
        }
        match board_from_fen(fen) {
            Some(b) => Some(GameState::from_board(b)),
            None => None,
        }
    }

    /// The current position.
    pub fn last_board(&self) -> (r: Board)
        ensures
            r == self.board,
    {
        self.board
    }

    /// The number of moves played along the line.
    pub fn ply(&self) -> (r: usize)
        ensures
            r == self.undo_stack@.len(),
    {
        self.undo_stack.len()
    }

    /// Plays a legal move and returns how often the position reached has now
    /// occurred along the line (at most 255 is reported).
    pub fn make_move(&mut self, mv: Move) -> (r: u8)
        requires
            old(self).wf(),
            is_legal(old(self).board, mv),
            mv.wf(),
            old(self).undo_stack@.len() < usize::MAX - 1,
        ensures
            final(self).wf(),
            final(self).board == after(old(self).board, mv),
            final(self).undo_stack@ == old(self).undo_stack@.push(
                UndoInfo { mv, prev_board: old(self).board },
            ),
            r as nat == if final(self).repetitions(hash_of(final(self).board)) > 255 {
                255
            } else {
                final(self).repetitions(hash_of(final(self).board))
            },
    {
        let ghost old_hashes = self.hashes();
        let prev = self.board;
        self.undo_stack.push(UndoInfo { mv, prev_board: prev });
        self.board = apply_move(&prev, mv);
        let h = board_hash(&self.board);
        let count: usize = match self.seen_positions.get(&h) {
            Some(c) => *c,
            None => 0,
        };
        proof {
            old_hashes.to_multiset_ensures();
            assert(old(self).repetitions(h) == occurrences(old_hashes, h));
            assert(count == occurrences(old_hashes, h));
            vstd::multiset::axiom_count_le_len(old_hashes.to_multiset(), h);
        }
        let new_count = count + 1;
        self.seen_positions.insert(h, new_count);
        proof {
            assert(self.positions() =~= old(self).positions().push(self.board));
            assert(self.hashes() =~= old_hashes.push(h));
            assert forall|k: u64| #[trigger]
                self.repetitions(k) == if self.seen_positions@.contains_key(k) {
                    self.seen_positions@[k] as nat
                } else {
                    0
                } by {
                assert(old(self).repetitions(k) == if old(self).seen_positions@.contains_key(k) {
                    old(self).seen_positions@[k] as nat
                } else {
                    0
                });
            }
            assert forall|i: int| 0 <= i < self.undo_stack@.len() implies is_legal(
                #[trigger] self.undo_stack@[i].prev_board,
                self.undo_stack@[i].mv,
            ) && self.positions()[i + 1] == after(
                self.undo_stack@[i].prev_board,
                self.undo_stack@[i].mv,
            ) by {
                if i + 1 < self.undo_stack@.len() {
                    assert(self.positions()[i + 1] == old(self).positions()[i + 1]);
                }
            }
        }
        if new_count > 255 {
            255
        } else {
            new_count as u8
        }
    }

    /// Takes back the last move played, restoring the position before it and
    /// its repetition counts.
    pub fn undo_last_move(&mut self)
        requires
            old(self).wf(),
            old(self).undo_stack@.len() > 0,
        ensures
            final(self).wf(),
            final(self).undo_stack@ == old(self).undo_stack@.drop_last(),
            final(self).board == old(self).undo_stack@.last().prev_board,
    {
        let ghost old_hashes = self.hashes();
        let h = board_hash(&self.board);
        let count: usize = match self.seen_positions.get(&h) {
            Some(c) => *c,
            None => 0,
        };
        let info = self.undo_stack.pop().unwrap();
        proof {
            old_hashes.to_multiset_ensures();
            assert(old_hashes.last() == h);
            assert(old(self).repetitions(h) == occurrences(old_hashes, h));
            assert(count == occurrences(old_hashes, h));
            assert(old_hashes.contains(h)) by {
                assert(old_hashes[old_hashes.len() - 1] == h);
            }
        }
        self.seen_positions.insert(h, count - 1);
        self.board = info.prev_board;
        proof {
            let new_hashes = self.hashes();
            assert(self.positions() =~= old(self).positions().drop_last());
            assert(new_hashes =~= old_hashes.remove(old_hashes.len() - 1));
            assert forall|k: u64| #[trigger]
                self.repetitions(k) == if self.seen_positions@.contains_key(k) {
                    self.seen_positions@[k] as nat
                } else {
                    0
                } by {
                assert(old(self).repetitions(k) == if old(self).seen_positions@.contains_key(k) {
                    old(self).seen_positions@[k] as nat
                } else {
                    0
                });
            }
            assert forall|i: int| 0 <= i < self.undo_stack@.len() implies is_legal(
                #[trigger] self.undo_stack@[i].prev_board,
                self.undo_stack@[i].mv,
            ) && self.positions()[i + 1] == after(
                self.undo_stack@[i].prev_board,
                self.undo_stack@[i].mv,
            ) by {
                assert(self.undo_stack@[i] == old(self).undo_stack@[i]);
                assert(old(self).positions()[i + 1] == after(
                    old(self).undo_stack@[i].prev_board,
                    old(self).undo_stack@[i].mv,
                ));
                if i + 1 < self.undo_stack@.len() {
                    assert(self.positions()[i + 1] == old(self).positions()[i + 1]);
                } else {
                    assert(old(self).positions()[i + 1] == old(self).undo_stack@[i + 1].prev_board);
                }
            }
        }
    }

    /// Whether the current position is a stalemate.
    pub fn is_draw(&self) -> (r: bool)
        ensures
            r == (status_of(self.board) == Status::Stalemate),
    {
        board_status(&self.board) == Status::Stalemate
    }

    /// How often the current position has occurred along the line.
    pub fn repetition_count(&self) -> (r: usize)
        requires
            self.wf(),
        ensures
            r == self.repetitions(hash_of(self.board)),
    {
        let h = board_hash(&self.board);
        proof {
            assert(self.repetitions(h) == if self.seen_positions@.contains_key(h) {
                self.seen_positions@[h] as nat
            } else {
                0
            });
        }
        match self.seen_positions.get(&h) {
            Some(c) => *c,
            None => 0,
        }
    }

    /// The side to move in the current position.
    pub fn side_to_move(&self) -> (r: Side)
        ensures
            r == side_of(self.board),
    {
        side_to_move(&self.board)
    }
}

impl GameState {
    /// An independent copy of the line.
    pub fn duplicate(&self) -> (r: GameState)
        requires
            self.wf(),
        ensures
            r.wf(),
            r.board == self.board,
            r.undo_stack@ == self.undo_stack@,
    {
        let mut undo_stack: Vec<UndoInfo> = Vec::new();
        let mut i: usize = 0;
        while i < self.undo_stack.len()
            invariant
                i <= self.undo_stack@.len(),
                undo_stack@ == self.undo_stack@.take(i as int),
            decreases self.undo_stack@.len() - i,
        {
            undo_stack.push(self.undo_stack[i]);
            i += 1;
            proof {
                assert(undo_stack@ =~= self.undo_stack@.take(i as int));
            }
        }
        proof {
            assert(undo_stack@ =~= self.undo_stack@);
        }
        let r = GameState {
            board: self.board,
            undo_stack,
            seen_positions: self.seen_positions.clone(),
        };
        proof {
            assert(r.positions() =~= self.positions());
            assert(r.hashes() =~= self.hashes());
            assert forall|h: u64| #[trigger]
                r.repetitions(h) == if r.seen_positions@.contains_key(h) {
                    r.seen_positions@[h] as nat
                } else {
                    0
                } by {
                assert(self.repetitions(h) == if self.seen_positions@.contains_key(h) {
                    self.seen_positions@[h] as nat
                } else {
                    0
                });
            }
        }
        r
    }

    /// A line at the standard starting position, or `None` if the move
    /// generator rejects the starting FEN.
    pub fn start() -> (r: Option<GameState>)
        ensures
            r is Some <==> places_both_kings(START_FEN@) && parse_fen(START_FEN@) is Some,
            r matches Some(s) ==> s.wf() && s.board == parse_fen(START_FEN@).unwrap()
                && s.undo_stack@.len() == 0,
    {
        GameState::from_fen(START_FEN)
    }
}

/// Playing a move adds one occurrence of the position it reaches: a move
/// into a position that has occurred twice along the line makes it occur a
/// third time, which `make_move` reports as 3, the count at which the search
/// scores the position 0 and the arbiter declares a draw.
pub proof fn lemma_repetition_count_grows(before: GameState, mv: Move, now: GameState)
    requires
        before.wf(),
        now.wf(),
        now.board == after(before.board, mv),
        now.undo_stack@ == before.undo_stack@.push(UndoInfo { mv, prev_board: before.board }),
    ensures
        now.repetitions(hash_of(now.board)) == before.repetitions(hash_of(now.board)) + 1,
        before.repetitions(hash_of(now.board)) == 2 ==> now.repetitions(hash_of(now.board))
            == REPETITION_DRAW,
{
    let h = hash_of(now.board);
    assert(now.positions() =~= before.positions().push(now.board));
    assert(now.hashes() =~= before.hashes().push(h));
    before.hashes().to_multiset_ensures();
}

} // verus!
