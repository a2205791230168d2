//! The negamax search: iterative deepening with aspiration windows,
//! principal-variation search over the staged move iterator, a
//! transposition table, killer / history / counter-move heuristics and a
//! quiescence search at the leaves.
use crate::board::{
    after, apply_move, board_hash, board_status, checkers_count, hash_of, is_capture, is_legal,
    legal_moves, legal_moves_of, occupancy_of, occupied_count, piece_on, status_of, Move,
    PieceKind, Status,
};
use crate::engine::{mated_score, EvalError, EvaluateEngine, SearchEngine, TimeInfo, MAX_GAME_PLY};
use crate::mv_iter::{sort_by_rank, StagedMoveIterator};
use crate::ordering::{is_quiet_move, mvv_lvv_score, see};
use crate::state::{lemma_repetition_count_grows, GameState, REPETITION_DRAW};
use chess::Board;
use vstd::prelude::*;

verus! {

/// The number of transposition-table entries, a power of two.
pub const TRANSPOSITION_TABLE_SIZE: usize = 1048576;

/// Scores beyond this magnitude are mate scores, which depend on the ply.
pub const MATE_THRESHOLD: i16 = 29000;

/// The deepest iteration of iterative deepening.
pub const MAX_DEPTH: u16 = 4;

/// The deepest iteration a searcher may be configured with.
pub const MAX_SEARCH_DEPTH: u16 = 32;

/// The deepest ply a search reaches, quiescence included.
pub const MAX_PLY: usize = 128;

/// Positions with at most this many pieces count as simple endgames.
pub const SIMPLE_ENDGAME_PIECE_COUNT: u32 = 4;

/// The quiescence ply below which simple endgames also try checks and king moves.
pub const ENDGAME_QSEARCH_DEPTH: usize = 8;

/// The number of history updates after which the history table is halved.
pub const HISTORY_AGING_PERIOD: u32 = 1024;

/// The initial half-width of an aspiration window.
pub const ASPIRATION_WINDOW: i16 = 32;

/// Re-searches of one depth after which the window becomes unbounded.
pub const MAX_ASPIRATION_RESEARCHES: u32 = 8;

/// Captures whose exchange loses more than this are not tried in quiescence.
pub const QUIESCENCE_SEE_THRESHOLD: i16 = -100;

/// The safety margin of delta pruning.
pub const DELTA_MARGIN: i32 = 200;

/// How a stored score bounds the true value of a position.
#[derive(Clone, Copy, Debug, PartialEq, Eq, Structural)]
pub enum ResultKind {
    Exact,
    LowerBound,
    UpperBound,
    /// The slot holds nothing that may be trusted.
    Empty,
}

impl Default for ResultKind {
    fn default() -> (r: ResultKind)
        ensures
            r == ResultKind::Empty,
    {
        ResultKind::Empty
    }
}

/// A transposition-table entry.
#[derive(Clone, Copy, Debug, PartialEq, Eq, Structural)]
pub struct SearchResult {
    pub hash: u64,
    pub depth: u16,
    pub score: i16,
    pub kind: ResultKind,
    pub best_move: Option<Move>,
}

impl SearchResult {
    /// An unused slot.
    pub fn empty() -> (r: SearchResult)
        ensures
            r.kind == ResultKind::Empty,
            r.best_move is None,
            r.score == 0,
    {
        SearchResult { hash: 0, depth: 0, score: 0, kind: ResultKind::Empty, best_move: None }
    }
}

/// The slot of a position hash.
pub open spec fn tt_index(hash: u64) -> int {
    (hash % (TRANSPOSITION_TABLE_SIZE as u64)) as int
}

/// The entry a probe trusts: the slot's entry if it is in use and stores
/// this very hash.
pub open spec fn tt_probe(table: Seq<SearchResult>, hash: u64) -> Option<SearchResult> {
    let e = table[tt_index(hash)];
    if e.hash == hash && e.kind != ResultKind::Empty {
        Some(e)
    } else {
        None
    }
}

/// The bound kind of a searched score: none for a mate score, an upper
/// bound when no move raised `alpha`, a lower bound on a cutoff, else exact.
pub open spec fn bound_kind(score: i16, alpha: i16, beta: i16) -> ResultKind {
    if score > MATE_THRESHOLD || score < -MATE_THRESHOLD {
        ResultKind::Empty
    } else if score <= alpha {
        ResultKind::UpperBound
    } else if score >= beta {
        ResultKind::LowerBound
    } else {
        ResultKind::Exact
    }
}

/// The table holds a result for `hash` with this depth, score and kind.
pub open spec fn stores(table: Seq<SearchResult>, hash: u64, depth: u16, score: i16, kind: ResultKind) -> bool {
    let e = table[tt_index(hash)];
    &&& e.hash == hash
    &&& e.depth == depth
    &&& e.score == score
    &&& e.kind == kind
}

/// Whether a stored entry of enough depth settles a search with window
/// `(alpha, beta)` at once.
pub open spec fn settles(e: SearchResult, alpha: i16, beta: i16, depth: u16) -> bool {
    &&& e.depth >= depth
    &&& match e.kind {
        ResultKind::Exact => true,
        ResultKind::LowerBound => e.score >= beta,
        ResultKind::UpperBound => e.score <= alpha,
        ResultKind::Empty => false,
    }
}

/// A static score made negatable, as the search uses it.
pub open spec fn clamped(v: i16) -> i16 {
    if v == i16::MIN {
        (-i16::MAX) as i16
    } else {
        v
    }
}

/// What a quiescence search returns when no tactical move is tried: `beta`
/// when the static score reaches it, else the better of `alpha` and the
/// static score.
pub open spec fn stand_pat_value(stand: i16, alpha: i16, beta: i16) -> i16 {
    if stand >= beta {
        beta
    } else if alpha < stand {
        stand
    } else {
        alpha
    }
}

/// A position with no legal capture, and (unless `ply` is past the
/// extension) not a simple endgame: quiescence tries no move there.
pub open spec fn is_quiet_position(b: Board, ply: int) -> bool {
    &&& forall|m: Move| is_legal(b, m) ==> !is_capture(b, m)
    &&& !(occupancy_of(b) <= SIMPLE_ENDGAME_PIECE_COUNT && ply < ENDGAME_QSEARCH_DEPTH)
}

/// Every legal move of the line's position reaches a position that has
/// already occurred twice, so that playing it repeats it a third time.
pub open spec fn all_moves_repeat(line: GameState) -> bool {
    forall|m: Move| #[trigger] is_legal(line.board, m) ==> line.repetitions(hash_of(after(line.board, m)))
        >= 2
}

/// No entry of the table is trusted.
pub open spec fn table_empty(t: Seq<SearchResult>) -> bool {
    forall|i: int| 0 <= i < t.len() ==> (#[trigger] t[i]).kind == ResultKind::Empty
}

/// A legal move that checkmates, into a position not seen twice before.
pub open spec fn mating_move(line: GameState, m: Move) -> bool {
    &&& is_legal(line.board, m)
    &&& status_of(after(line.board, m)) == Status::Checkmate
    &&& line.repetitions(hash_of(after(line.board, m))) < 2
}

/// Evaluators of type `E` state their score on every line.
pub open spec fn states_every_score<E: EvaluateEngine>() -> bool {
    forall|s: GameState| #[trigger] E::static_score(s) is Some
}

/// The mated side's score bounds: a mate score, never the lowest value.
proof fn lemma_mated_score_range(n: nat)
    ensures
        -30000 <= mated_score(n) <= -29001,
{
}

/// The room a game line needs for a search that reaches ply `MAX_PLY` from `ply`.
pub open spec fn has_room(state: GameState, ply: int) -> bool {
    state.undo_stack@.len() + MAX_PLY - ply < MAX_GAME_PLY + MAX_PLY
}

/// The line is back where it was.
pub open spec fn restored(before: GameState, now: GameState) -> bool {
    &&& now.wf()
    &&& now.board == before.board
    &&& now.undo_stack@ == before.undo_stack@
}

/// A score whose negation is a score too.
pub open spec fn is_score(v: i16) -> bool {
    v > i16::MIN
}

/// An empty killer slot pair.
pub open spec fn no_killers() -> [Option<Move>; 2] {
    [None, None]
}

/// A negamax searcher with its heuristics and the evaluator it scores with.
pub struct Negamax<E: EvaluateEngine> {
    pub nodes_explored: usize,
    pub transposition_table: Vec<SearchResult>,
    /// Two killer moves for each ply.
    pub killer_moves: Vec<[Option<Move>; 2]>,
    /// A refutation for each destination square of the opponent's last move.
    pub counter_moves: Vec<Option<Move>>,
    /// A score for each (from, to) pair, at index `from * 64 + to`.
    pub history_table: Vec<i32>,
    pub history_move_count: u32,
    /// The deepest iteration of iterative deepening.
    pub max_depth: u16,
    pub evaluator: E,
}

impl<E: EvaluateEngine> Negamax<E> {
    pub open spec fn wf(&self) -> bool {
        &&& self.transposition_table@.len() == TRANSPOSITION_TABLE_SIZE
        &&& forall|i: int|
            0 <= i < self.transposition_table@.len() ==> is_score(
                #[trigger] self.transposition_table@[i].score,
            )
        &&& self.killer_moves@.len() == MAX_PLY
        &&& self.counter_moves@.len() == 64
        &&& self.history_table@.len() == 4096
        &&& forall|i: int| 0 <= i < 4096 ==> #[trigger] self.history_table@[i] >= 0
        &&& self.history_move_count < HISTORY_AGING_PERIOD
        &&& self.max_depth <= MAX_SEARCH_DEPTH
    }

    /// A searcher with empty tables, scoring with `evaluator`, deepening up
    /// to `MAX_DEPTH`.
    pub fn new(evaluator: E) -> (r: Self)
        ensures
            r.wf(),
            r.max_depth == MAX_DEPTH,
            r.nodes_explored == 0,
            r.history_move_count == 0,
            forall|i: int| 0 <= i < TRANSPOSITION_TABLE_SIZE ==> (
            #[trigger] r.transposition_table@[i]).kind == ResultKind::Empty,
            forall|i: int| 0 <= i < MAX_PLY ==> #[trigger] r.killer_moves@[i] == no_killers(),
            forall|i: int| 0 <= i < 64 ==> #[trigger] r.counter_moves@[i] is None,
            forall|i: int| 0 <= i < 4096 ==> #[trigger] r.history_table@[i] == 0,
    {
        let mut r = Negamax {
            nodes_explored: 0,
            transposition_table: Vec::new(),
            killer_moves: Vec::new(),
            counter_moves: Vec::new(),
            history_table: Vec::new(),
            history_move_count: 0,
            max_depth: MAX_DEPTH,
            evaluator,
        };
        r.reset_tables();
        r
    }

    /// A searcher like `new` that deepens up to `max_depth` instead.
    pub fn with_max_depth(evaluator: E, max_depth: u16) -> (r: Self)
        requires
            max_depth <= MAX_SEARCH_DEPTH,
        ensures
            r.wf(),
            r.max_depth == max_depth,
    {
        let mut r = Self::new(evaluator);
        r.max_depth = max_depth;
        r
    }

    /// Every table is empty: no trusted transposition entry, no killer or
    /// counter move, no history score.
    pub open spec fn tables_empty(&self) -> bool {
        &&& self.history_move_count == 0
        &&& forall|i: int| 0 <= i < self.transposition_table@.len() ==> (
        #[trigger] self.transposition_table@[i]).kind == ResultKind::Empty
        &&& forall|i: int| 0 <= i < self.killer_moves@.len() ==> #[trigger] self.killer_moves@[i]
            == no_killers()
        &&& forall|i: int| 0 <= i < self.counter_moves@.len() ==> #[trigger] self.counter_moves@[i]
            is None
        &&& forall|i: int| 0 <= i < self.history_table@.len() ==> #[trigger] self.history_table@[i]
            == 0
    }

    /// Empties every table: the transposition table, the killer, counter
    /// and history tables.
    pub fn reset_tables(&mut self)
        requires
            old(self).max_depth <= MAX_SEARCH_DEPTH,
        ensures
            final(self).wf(),
            final(self).tables_empty(),
            final(self).nodes_explored == old(self).nodes_explored,
            final(self).max_depth == old(self).max_depth,
            final(self).history_move_count == 0,
            forall|i: int| 0 <= i < TRANSPOSITION_TABLE_SIZE ==> (
            #[trigger] final(self).transposition_table@[i]).kind == ResultKind::Empty,
            forall|i: int| 0 <= i < MAX_PLY ==> #[trigger] final(self).killer_moves@[i]
                == no_killers(),
            forall|i: int| 0 <= i < 64 ==> #[trigger] final(self).counter_moves@[i] is None,
            forall|i: int| 0 <= i < 4096 ==> #[trigger] final(self).history_table@[i] == 0,
    {
        let mut tt: Vec<SearchResult> = Vec::new();
        let mut i: usize = 0;
        while i < TRANSPOSITION_TABLE_SIZE
            invariant
                i <= TRANSPOSITION_TABLE_SIZE,
                tt@.len() == i,
                forall|j: int| 0 <= j < i ==> (#[trigger] tt@[j]).kind == ResultKind::Empty
                    && tt@[j].score == 0,
            decreases TRANSPOSITION_TABLE_SIZE - i,
        {
            tt.push(SearchResult::empty());
            i += 1;
        }
        let mut killers: Vec<[Option<Move>; 2]> = Vec::new();
        let mut i: usize = 0;
        while i < MAX_PLY
            invariant
                i <= MAX_PLY,
                killers@.len() == i,
                forall|j: int| 0 <= j < i ==> #[trigger] killers@[j] == no_killers(),
            decreases MAX_PLY - i,
        {
            killers.push([None, None]);
            proof {
                assert(killers@[i as int] =~= no_killers());
            }
            i += 1;
        }
        let mut counters: Vec<Option<Move>> = Vec::new();
        let mut i: usize = 0;
        while i < 64
            invariant
                i <= 64,
                counters@.len() == i,
                forall|j: int| 0 <= j < i ==> #[trigger] counters@[j] is None,
            decreases 64 - i,
        {
            counters.push(None);
            i += 1;
        }
        let mut history: Vec<i32> = Vec::new();
        let mut i: usize = 0;
        while i < 4096
            invariant
                i <= 4096,
                history@.len() == i,
                forall|j: int| 0 <= j < i ==> #[trigger] history@[j] == 0,
            decreases 4096 - i,
        {
            history.push(0);
            i += 1;
        }
        self.transposition_table = tt;
        self.killer_moves = killers;
        self.counter_moves = counters;
        self.history_table = history;
        self.history_move_count = 0;
    }

    /// The trusted entry for a position hash, if any.
    pub fn get_tt_entry(&self, hash: u64) -> (r: Option<SearchResult>)
        requires
            self.wf(),
        ensures
            r == tt_probe(self.transposition_table@, hash),
    {
        let idx = (hash % (TRANSPOSITION_TABLE_SIZE as u64)) as usize;
        let entry = self.transposition_table[idx];
        if entry.hash == hash && entry.kind != ResultKind::Empty {
            Some(entry)
        } else {
            None
        }
    }

    /// Stores an entry in the slot of its hash, over what was there.
    pub fn save_tt_entry(&mut self, search_result: SearchResult)
        requires
            old(self).wf(),
            is_score(search_result.score),
        ensures
            final(self).wf(),
            final(self).transposition_table@ == old(self).transposition_table@.update(
                tt_index(search_result.hash),
                search_result,
            ),
            final(self).killer_moves@ == old(self).killer_moves@,
            final(self).history_table@ == old(self).history_table@,
            final(self).counter_moves@ == old(self).counter_moves@,
            final(self).history_move_count == old(self).history_move_count,
            final(self).nodes_explored == old(self).nodes_explored,
    {
        let idx = (search_result.hash % (TRANSPOSITION_TABLE_SIZE as u64)) as usize;
        self.transposition_table.set(idx, search_result);
    }

    /// Halves every history score.
    pub fn age_history(&mut self)
        requires
            old(self).history_table@.len() == 4096,
            forall|i: int| 0 <= i < 4096 ==> #[trigger] old(self).history_table@[i] >= 0,
        ensures
            final(self).history_table@.len() == 4096,
            forall|i: int| 0 <= i < 4096 ==> #[trigger] final(self).history_table@[i] >= 0,
            forall|i: int| 0 <= i < 4096 ==> #[trigger] final(self).history_table@[i]
                == old(self).history_table@[i] / 2,
            final(self).transposition_table@ == old(self).transposition_table@,
            final(self).killer_moves@ == old(self).killer_moves@,
            final(self).counter_moves@ == old(self).counter_moves@,
            final(self).history_move_count == old(self).history_move_count,
            final(self).nodes_explored == old(self).nodes_explored,
            final(self).max_depth == old(self).max_depth,
    {
        let mut i: usize = 0;
        while i < 4096
            invariant
                old(self).history_table@.len() == 4096,
                forall|j: int| 0 <= j < 4096 ==> #[trigger] old(self).history_table@[j] >= 0,
                i <= 4096,
                self.history_table@.len() == 4096,
                forall|j: int| 0 <= j < i ==> #[trigger] self.history_table@[j]
                    == old(self).history_table@[j] / 2,
                forall|j: int| i <= j < 4096 ==> #[trigger] self.history_table@[j]
                    == old(self).history_table@[j],
                self.transposition_table@ == old(self).transposition_table@,
                self.killer_moves@ == old(self).killer_moves@,
                self.counter_moves@ == old(self).counter_moves@,
                self.history_move_count == old(self).history_move_count,
                self.nodes_explored == old(self).nodes_explored,
                self.max_depth == old(self).max_depth,
            decreases 4096 - i,
        {
            let v = self.history_table[i];
            self.history_table.set(i, v / 2);
            i += 1;
        }
        proof {
            assert forall|j: int| 0 <= j < 4096 implies #[trigger] self.history_table@[j] >= 0 by {
                assert(old(self).history_table@[j] >= 0);
            }
        }
    }

    /// Records a quiet move that caused a cutoff at `ply`: it becomes the
    /// first killer of the ply (the old first one moves to second place),
    /// its history score grows by `depth * depth` (saturating), the history
    /// table is halved every `HISTORY_AGING_PERIOD` updates, and it becomes
    /// the counter move of the opponent's last destination square when that
    /// is known. A capture changes nothing.
    pub fn update_move_ordering(
        &mut self,
        mv: Move,
        board: &Board,
        depth: u16,
        ply: usize,
        last_move_to_square: Option<usize>,
    )
        requires
            old(self).wf(),
            mv.wf(),
            ply < MAX_PLY,
            last_move_to_square matches Some(s) ==> s < 64,
        ensures
            final(self).wf(),
            final(self).transposition_table@ == old(self).transposition_table@,
            final(self).nodes_explored == old(self).nodes_explored,
            is_capture(*board, mv) ==> final(self).killer_moves@ == old(self).killer_moves@
                && final(self).history_table@ == old(self).history_table@
                && final(self).counter_moves@ == old(self).counter_moves@
                && final(self).history_move_count == old(self).history_move_count,
            !is_capture(*board, mv) ==> {
                &&& final(self).killer_moves@ == old(self).killer_moves@.update(
                    ply as int,
                    killers_after(old(self).killer_moves@[ply as int], mv),
                )
                &&& final(self).counter_moves@ == match last_move_to_square {
                    Some(s) => old(self).counter_moves@.update(s as int, Some(mv)),
                    None => old(self).counter_moves@,
                }
                &&& if old(self).history_move_count + 1 >= HISTORY_AGING_PERIOD {
                    &&& final(self).history_move_count == 0
                    &&& forall|i: int| 0 <= i < 4096 ==> #[trigger] final(self).history_table@[i]
                        == history_bumped(old(self).history_table@, mv, depth)[i] / 2
                } else {
                    &&& final(self).history_move_count == old(self).history_move_count + 1
                    &&& final(self).history_table@ == history_bumped(
                        old(self).history_table@,
                        mv,
                        depth,
                    )
                }
            },
    {
        if is_quiet_move(board, mv) {
            let k = self.killer_moves[ply];
            if k[0] != Some(mv) {
                self.killer_moves.set(ply, [Some(mv), k[0]]);
            }
            proof {
                assert(self.killer_moves@ =~= old(self).killer_moves@.update(
                    ply as int,
                    killers_after(old(self).killer_moves@[ply as int], mv),
                ));
            }
            proof {
                let d = depth as int;
                assert(0 <= d * d <= 65535 * 65535) by (nonlinear_arith)
                    requires
                        0 <= d <= 65535,
                ;
            }
            let bonus: i64 = (depth as i64) * (depth as i64);
            let idx = (mv.from as usize) * 64 + (mv.to as usize);
            let sum: i64 = self.history_table[idx] as i64 + bonus;
            let v: i32 = if sum > i32::MAX as i64 {
                i32::MAX
            } else {
                sum as i32
            };
            self.history_table.set(idx, v);
            proof {
                assert(self.history_table@ =~= history_bumped(old(self).history_table@, mv, depth));
            }
            self.history_move_count = self.history_move_count + 1;
            if self.history_move_count >= HISTORY_AGING_PERIOD {
                self.age_history();
                self.history_move_count = 0;
            }
            if let Some(last_to) = last_move_to_square {
                self.counter_moves.set(last_to, Some(mv));
            }
        }
    }

    /// Counts a visited node, saturating.
    fn count_node(&mut self)
        ensures
            *final(self) == (Negamax {
                nodes_explored: final(self).nodes_explored,
                ..*old(self)
            }),
    {
        if self.nodes_explored < usize::MAX {
            self.nodes_explored = self.nodes_explored + 1;
        }
    }
}

/// The killer pair of a ply after `mv` caused a cutoff there.
pub open spec fn killers_after(k: [Option<Move>; 2], mv: Move) -> [Option<Move>; 2] {
    if k[0] == Some(mv) {
        k
    } else {
        [Some(mv), k[0]]
    }
}

/// The history table after a cutoff by `mv` at `depth`.
pub open spec fn history_bumped(h: Seq<i32>, mv: Move, depth: u16) -> Seq<i32> {
    let idx = mv.from as int * 64 + mv.to as int;
    let sum = h[idx] + depth * depth;
    h.update(idx, if sum > i32::MAX { i32::MAX } else { sum as i32 })
}

/// A score raised to at least `-i16::MAX`, so that it may be negated.
pub fn clamp_score(v: i16) -> (r: i16)
    ensures
        is_score(r),
        r == clamped(v),
        v > i16::MIN ==> r == v,
{
    if v == i16::MIN {
        -i16::MAX
    } else {
        v
    }
}

impl<E: EvaluateEngine> Negamax<E> {
    /// The capture and check-extended search at the leaves. It returns
    /// `beta` on a cutoff and otherwise the best of `alpha`, the static
    /// score and the scores of the tactical moves tried; past `MAX_PLY` only
    /// the static score counts. For an evaluator that states its static
    /// score, the result is never below it (but for a cutoff at `beta`), and
    /// in a quiet position it is exactly the stand-pat value.
    pub fn quiescence(&mut self, state: &mut GameState, alpha: i16, beta: i16, ply: usize) -> (r:
        Result<i16, EvalError>)
        requires
            old(self).wf(),
            old(state).wf(),
            ply <= MAX_PLY,
            has_room(*old(state), ply as int),
            is_score(alpha),
            is_score(beta),
        ensures
            final(self).wf(),
            restored(*old(state), *final(state)),
            r matches Ok(v) ==> is_score(v) && (v == beta || v >= alpha),
            r matches Ok(v) ==> alpha < beta ==> alpha <= v <= beta,
            E::never_fails() ==> r is Ok,
            E::stated_error(*old(state)) matches Some(e) ==> r == Err::<i16, EvalError>(e),
            r matches Ok(v) ==> (E::static_score(*old(state)) matches Some(w) ==> {
                &&& crate::engine::scores_terminal(*old(state), w)
                &&& clamped(w) < beta ==> v >= clamped(w)
                &&& clamped(w) >= beta ==> v == beta
                &&& is_quiet_position(old(state).board, ply as int) || legal_moves_of(
                    old(state).board,
                ).len() == 0 ==> v == stand_pat_value(clamped(w), alpha, beta)
            }),
            final(self).transposition_table@ == old(self).transposition_table@,
            final(self).killer_moves@ == old(self).killer_moves@,
            final(self).history_table@ == old(self).history_table@,
        decreases 0int, MAX_PLY - ply, 1int,
    {
        let ghost alpha0 = alpha;
        self.count_node();
        let ghost static_score = E::static_score(*state);
        let stand_pat = match self.evaluator.evaluate(state) {
            Ok(v) => clamp_score(v),
            Err(e) => return Err(e),
        };
        assert(static_score == E::static_score(*old(state)));
        if stand_pat >= beta {
            return Ok(beta);
        }
        let mut alpha = if alpha < stand_pat {
            stand_pat
        } else {
            alpha
        };
        if ply >= MAX_PLY {
            return Ok(alpha);
        }
        let board = state.board;
        let is_simple_endgame = occupied_count(&board) <= SIMPLE_ENDGAME_PIECE_COUNT;
        let legal = legal_moves(&board);

        // Captures that do not lose too much, best victims first.
        let mut captures: Vec<(Move, i64)> = Vec::new();
        let mut extended: Vec<Move> = Vec::new();
        let mut i: usize = 0;
        while i < legal.len()
            invariant
                i <= legal@.len(),
                legal@ == legal_moves_of(board),
                forall|j: int| 0 <= j < legal@.len() ==> (#[trigger] legal@[j]).wf(),
                forall|k: int| 0 <= k < captures@.len() ==> is_legal(board, #[trigger] captures@[k].0)
                    && captures@[k].0.wf() && is_capture(board, captures@[k].0),
                forall|k: int| 0 <= k < extended@.len() ==> is_legal(board, #[trigger] extended@[k])
                    && extended@[k].wf(),
                is_simple_endgame == (occupancy_of(board) <= SIMPLE_ENDGAME_PIECE_COUNT),
                extended@.len() > 0 ==> is_simple_endgame && ply < ENDGAME_QSEARCH_DEPTH,
            decreases legal@.len() - i,
        {
            let m = legal[i];
            proof {
                assert(legal@.contains(m));
            }
            if !is_quiet_move(&board, m) {
                if see(&board, m, QUIESCENCE_SEE_THRESHOLD) {
                    captures.push((m, -(mvv_lvv_score(&board, m) as i64)));
                }
            } else if is_simple_endgame && ply < ENDGAME_QSEARCH_DEPTH {
                let next = apply_move(&board, m);
                if checkers_count(&next) > 0 || piece_on(&board, m.from) == Some(PieceKind::King) {
                    extended.push(m);
                }
            }
            i += 1;
        }
        let ghost unsorted = captures@;
        sort_by_rank(&mut captures);
        proof {
            unsorted.to_multiset_ensures();
            captures@.to_multiset_ensures();
            assert forall|k: int| 0 <= k < captures@.len() implies is_legal(
                board,
                #[trigger] captures@[k].0,
            ) && captures@[k].0.wf() && is_capture(board, captures@[k].0) by {
                assert(captures@.contains(captures@[k]));
                assert(unsorted.to_multiset().count(captures@[k]) > 0);
                assert(unsorted.contains(captures@[k]));
                let j = choose|j: int| 0 <= j < unsorted.len() && unsorted[j] == captures@[k];
                assert(is_legal(board, unsorted[j].0));
                assert(is_capture(board, unsorted[j].0));
            }
        }

        let mut k: usize = 0;
        while k < captures.len()
            invariant
                self.wf(),
                state.wf(),
                state.board == board,
                state.undo_stack@ == old(state).undo_stack@,
                has_room(*old(state), ply as int),
                ply < MAX_PLY,
                is_score(alpha),
                is_score(beta),
                is_score(stand_pat),
                board == old(state).board,
                static_score == E::static_score(*old(state)),
                E::stated_error(*old(state)) is None,
                self.transposition_table@ == old(self).transposition_table@,
                self.killer_moves@ == old(self).killer_moves@,
                self.history_table@ == old(self).history_table@,
                static_score matches Some(w) ==> stand_pat == clamped(w),
                static_score matches Some(w) ==> crate::engine::scores_terminal(*old(state), w),
                alpha >= alpha0,
                alpha >= stand_pat,
                alpha0 < beta ==> alpha < beta,
                k > 0 ==> captures@.len() > 0,
                captures@.len() == 0 ==> alpha == stand_pat_value(stand_pat, alpha0, beta),
                is_simple_endgame == (occupancy_of(board) <= SIMPLE_ENDGAME_PIECE_COUNT),
                extended@.len() > 0 ==> is_simple_endgame && ply < ENDGAME_QSEARCH_DEPTH,
                forall|j: int| 0 <= j < captures@.len() ==> is_legal(board, #[trigger] captures@[j].0)
                    && captures@[j].0.wf() && is_capture(board, captures@[j].0),
            decreases captures@.len() - k,
        {
            let mv = captures[k].0;
            k += 1;
            let optimistic: i32 = stand_pat as i32 + mvv_lvv_score(&board, mv) as i32 + DELTA_MARGIN;
            if optimistic >= alpha as i32 {
                let repetition_count = state.make_move(mv);
                let res = if repetition_count >= REPETITION_DRAW {
                    Ok(0i16)
                } else {
                    match self.quiescence(state, -beta, -alpha, ply + 1) {
                        Ok(v) => Ok(-v),
                        Err(e) => Err(e),
                    }
                };
                state.undo_last_move();
                assert(state.undo_stack@ =~= old(state).undo_stack@);
                let score = match res {
                    Ok(v) => v,
                    Err(e) => return Err(e),
                };
                if score >= beta {
                    return Ok(beta);
                }
                if score > alpha {
                    alpha = score;
                }
            }
        }

        let mut k: usize = 0;
        while k < extended.len()
            invariant
                self.wf(),
                state.wf(),
                state.board == board,
                state.undo_stack@ == old(state).undo_stack@,
                has_room(*old(state), ply as int),
                ply < MAX_PLY,
                is_score(alpha),
                is_score(beta),
                board == old(state).board,
                static_score == E::static_score(*old(state)),
                E::stated_error(*old(state)) is None,
                self.transposition_table@ == old(self).transposition_table@,
                self.killer_moves@ == old(self).killer_moves@,
                self.history_table@ == old(self).history_table@,
                static_score matches Some(w) ==> stand_pat == clamped(w),
                static_score matches Some(w) ==> crate::engine::scores_terminal(*old(state), w),
                alpha >= alpha0,
                alpha >= stand_pat,
                alpha0 < beta ==> alpha < beta,
                captures@.len() == 0 && extended@.len() == 0 ==> alpha == stand_pat_value(
                    stand_pat,
                    alpha0,
                    beta,
                ),
                forall|j: int| 0 <= j < captures@.len() ==> is_legal(board, #[trigger] captures@[j].0)
                    && is_capture(board, captures@[j].0),
                is_simple_endgame == (occupancy_of(board) <= SIMPLE_ENDGAME_PIECE_COUNT),
                extended@.len() > 0 ==> is_simple_endgame && ply < ENDGAME_QSEARCH_DEPTH,
                forall|j: int| 0 <= j < extended@.len() ==> is_legal(board, #[trigger] extended@[j])
                    && extended@[j].wf(),
            decreases extended@.len() - k,
        {
            let mv = extended[k];
            k += 1;
            let repetition_count = state.make_move(mv);
            let res = if repetition_count >= REPETITION_DRAW {
                Ok(0i16)
            } else {
                match self.quiescence(state, -beta, -alpha, ply + 1) {
                    Ok(v) => Ok(-v),
                    Err(e) => Err(e),
                }
            };
            state.undo_last_move();
            assert(state.undo_stack@ =~= old(state).undo_stack@);
            let score = match res {
                Ok(v) => v,
                Err(e) => return Err(e),
            };
            if score >= beta {
                return Ok(beta);
            }
            if score > alpha {
                alpha = score;
            }
        }
        proof {
            if is_quiet_position(board, ply as int) {
                if captures@.len() > 0 {
                    assert(is_legal(board, captures@[0].0));
                    assert(is_capture(board, captures@[0].0));
                }
                assert(extended@.len() == 0);
            }
            if legal_moves_of(board).len() == 0 {
                if captures@.len() > 0 {
                    assert(is_legal(board, captures@[0].0));
                }
                if extended@.len() > 0 {
                    assert(is_legal(board, extended@[0]));
                }
            }
        }
        Ok(alpha)
    }
}

impl<E: EvaluateEngine> Negamax<E> {
    /// The principal-variation alpha-beta search of `state` to `depth` plies,
    /// from the side to move's perspective, at distance `ply` from the root.
    /// A stored result of enough depth answers at once when its bound
    /// allows; depth 0 hands over to quiescence; a finished game is scored
    /// by the evaluator. Each cutoff by a quiet move feeds the killer and
    /// history tables, and the result is stored unless a deeper one is there.
    pub fn search_eval(
        &mut self,
        state: &mut GameState,
        alpha: i16,
        beta: i16,
        depth: u16,
        ply: usize,
    ) -> (r: Result<i16, EvalError>)
        requires
            old(self).wf(),
            old(state).wf(),
            ply + depth < MAX_PLY,
            has_room(*old(state), ply as int),
            is_score(alpha),
            is_score(beta),
        ensures
            final(self).wf(),
            restored(*old(state), *final(state)),
            r matches Ok(v) ==> is_score(v),
            E::never_fails() ==> r is Ok,
            E::stated_error(*old(state)) matches Some(err) ==> !(tt_probe(
                old(self).transposition_table@,
                hash_of(old(state).board),
            ) matches Some(e) && settles(e, alpha, beta, depth)) && (depth == 0 || status_of(
                old(state).board,
            ) != Status::Ongoing) ==> r == Err::<i16, EvalError>(err),
            tt_probe(old(self).transposition_table@, hash_of(old(state).board)) matches Some(e)
                ==> settles(e, alpha, beta, depth) ==> r == Ok::<i16, EvalError>(e.score),
            r matches Ok(v) ==> (E::static_score(*old(state)) matches Some(w)
                ==> depth > 0 && status_of(old(state).board) != Status::Ongoing && !(tt_probe(
                old(self).transposition_table@,
                hash_of(old(state).board),
            ) matches Some(e) && settles(e, alpha, beta, depth)) ==> v == clamped(w)),
            r matches Ok(v) ==> depth > 0 && status_of(old(state).board) == Status::Ongoing && !(
            tt_probe(old(self).transposition_table@, hash_of(old(state).board)) matches Some(e)
                && settles(e, alpha, beta, depth)) && all_moves_repeat(*old(state)) ==> v == 0,
            r matches Ok(v) ==> (E::static_score(*old(state)) matches Some(w) ==> depth == 0
                && tt_probe(old(self).transposition_table@, hash_of(old(state).board)) is None ==> {
                &&& crate::engine::scores_terminal(*old(state), w)
                &&& legal_moves_of(old(state).board).len() == 0 ==> v == stand_pat_value(
                    clamped(w),
                    alpha,
                    beta,
                )
            }),
            r matches Ok(v) ==> depth == 1 && table_empty(old(self).transposition_table@)
                && states_every_score::<E>() && alpha <= MATE_THRESHOLD && beta > MATE_THRESHOLD
                && (exists|m: Move| #[trigger] mating_move(*old(state), m)) ==> v > MATE_THRESHOLD,
            depth == 0 || (tt_probe(old(self).transposition_table@, hash_of(old(state).board)) matches Some(e)
                && settles(e, alpha, beta, depth)) || (depth > 0 && status_of(old(state).board)
                != Status::Ongoing) ==> final(self).transposition_table@
                == old(self).transposition_table@ && final(self).killer_moves@
                == old(self).killer_moves@ && final(self).history_table@
                == old(self).history_table@,
            r matches Ok(v) ==> !(tt_probe(old(self).transposition_table@, hash_of(old(state).board))
                matches Some(e) && (e.depth > depth || settles(e, alpha, beta, depth))) && depth > 0
                && status_of(old(state).board) == Status::Ongoing ==> stores(
                final(self).transposition_table@,
                hash_of(old(state).board),
                depth,
                v,
                bound_kind(v, alpha, beta),
            ),
        decreases depth as int, MAX_PLY as int + 1, 2int,
    {
        self.count_node();
        let board = state.board;
        let hash = board_hash(&board);
        let entry = self.get_tt_entry(hash);
        let mut best_score: i16 = -i16::MAX;
        let mut best_move: Option<Move> = None;
        let mut replace_entry = entry.is_none();
        if let Some(e) = entry {
            proof {
                assert(is_score(self.transposition_table@[tt_index(hash)].score));
            }
            replace_entry = replace_entry || e.depth <= depth;
            if e.depth >= depth {
                match e.kind {
                    ResultKind::Exact => {
                        return Ok(e.score);
                    },
                    ResultKind::LowerBound => {
                        if e.score >= beta {
                            return Ok(e.score);
                        }
                    },
                    ResultKind::UpperBound => {
                        if e.score <= alpha {
                            return Ok(e.score);
                        }
                    },
                    ResultKind::Empty => {},
                }
            }
            if e.best_move.is_some() {
                best_move = e.best_move;
            }
        }
        if depth == 0 {
            return self.quiescence(state, alpha, beta, ply);
        }
        match board_status(&board) {
            Status::Ongoing => {},
            _ => {
                return match self.evaluator.evaluate(state) {
                    Ok(v) => Ok(clamp_score(v)),
                    Err(e) => Err(e),
                };
            },
        }

        let mut alpha_now = alpha;
        let killers = self.killer_moves[ply];
        // The counter-move stage stays empty: the opponent's last move is not
        // passed down the tree.
        let mut it = StagedMoveIterator::new(board, best_move, &killers, None);
        let mut first = true;
        let ghost mate_case = depth == 1 && table_empty(old(self).transposition_table@)
            && states_every_score::<E>() && alpha <= MATE_THRESHOLD && beta > MATE_THRESHOLD
            && (exists|m: Move| #[trigger] mating_move(*old(state), m));
        let ghost mstar = choose|m: Move| #[trigger] mating_move(*old(state), m);
        loop
            invariant_except_break
                !first ==> alpha_now < beta,
            invariant
                self.wf(),
                state.wf(),
                state.board == board,
                board == old(state).board,
                state.undo_stack@ == old(state).undo_stack@,
                has_room(*old(state), ply as int),
                ply + depth < MAX_PLY,
                depth > 0,
                hash == hash_of(board),
                tt_probe(old(self).transposition_table@, hash) matches Some(e) ==> !settles(
                    e,
                    alpha,
                    beta,
                    depth,
                ),
                it.wf(),
                it.board == board,
                is_score(alpha_now),
                is_score(beta),
                is_score(best_score),
                first ==> it.pos == 0 && best_score == -i16::MAX,
                all_moves_repeat(*old(state)) && !first ==> best_score == 0,
                alpha_now == if alpha >= best_score { alpha } else { best_score },
                mate_case == (depth == 1 && table_empty(old(self).transposition_table@)
                    && states_every_score::<E>() && alpha <= MATE_THRESHOLD && beta > MATE_THRESHOLD
                    && (exists|m: Move| #[trigger] mating_move(*old(state), m))),
                mate_case ==> mating_move(*old(state), mstar),
                mate_case ==> table_empty(self.transposition_table@),
                mate_case && it.produced().contains(mstar) ==> best_score > MATE_THRESHOLD,
            ensures
                first ==> it.produced().to_set() == legal_moves_of(board).to_set(),
                it.produced().to_set() == legal_moves_of(board).to_set() || alpha_now >= beta,
            decreases it.legal@.len() - it.pos,
        {
            let ghost old_produced = it.produced();
            let mv = match it.next(&self.history_table) {
                Some(m) => m,
                None => {
                    break;
                },
            };
            let ghost before = *state;
            let repetition_count = state.make_move(mv);
            proof {
                lemma_repetition_count_grows(before, mv, *state);
                if all_moves_repeat(*old(state)) {
                    assert(is_legal(board, mv));
                    assert(before.repetitions(hash_of(after(board, mv))) == old(state).repetitions(
                        hash_of(after(board, mv)),
                    ));
                    assert(repetition_count >= REPETITION_DRAW);
                }
            }
            let ghost child = *state;
            let ghost mates = mate_case && mv == mstar;
            proof {
                if mates {
                    let h = hash_of(after(board, mv));
                    assert(before.repetitions(h) == old(state).repetitions(h));
                    assert(repetition_count < REPETITION_DRAW);
                    assert(self.transposition_table@[tt_index(h)].kind == ResultKind::Empty);
                    assert(E::static_score(child) is Some);
                    lemma_mated_score_range(child.undo_stack@.len());
                }
            }
            let res: Result<i16, EvalError> = if repetition_count >= REPETITION_DRAW {
                Ok(0)
            } else if first {
                match self.search_eval(state, -beta, -alpha_now, depth - 1, ply + 1) {
                    Ok(v) => {
                        proof {
                            if mates {
                                assert(E::static_score(child) is Some);
                            }
                        }
                        Ok(-v)
                    },
                    Err(e) => Err(e),
                }
            } else {
                // A null window first; a full re-search only if the move
                // lands strictly inside the window.
                match self.search_eval(state, -alpha_now - 1, -alpha_now, depth - 1, ply + 1) {
                    Ok(v) => {
                        let score = -v;
                        if score > alpha_now && score < beta {
                            let ghost again = *state;
                            proof {
                                if mates {
                                    let h = hash_of(after(board, mv));
                                    assert(self.transposition_table@[tt_index(h)].kind
                                        == ResultKind::Empty);
                                    assert(E::static_score(again) is Some);
                                    lemma_mated_score_range(again.undo_stack@.len());
                                }
                            }
                            match self.search_eval(state, -beta, -alpha_now, depth - 1, ply + 1) {
                                Ok(w) => Ok(-w),
                                Err(e) => Err(e),
                            }
                        } else {
                            Ok(score)
                        }
                    },
                    Err(e) => Err(e),
                }
            };
            assert(res matches Ok(x) ==> (mates ==> x > MATE_THRESHOLD));
            state.undo_last_move();
            assert(state.undo_stack@ =~= old(state).undo_stack@);
            let score = match res {
                Ok(v) => v,
                Err(err) => {
                    return Err(err);
                },
            };
            first = false;
            if score > best_score {
                best_score = score;
                best_move = Some(mv);
            }
            if best_score > alpha_now {
                alpha_now = best_score;
            }
            proof {
                if mate_case {
                    assert forall|m: Move| #[trigger] it.produced().contains(m) && m == mstar
                        implies best_score > MATE_THRESHOLD by {
                        if m != mv {
                            let k = choose|k: int| 0 <= k < it.produced().len() && it.produced()[k] == m;
                            assert(k < it.produced().len() - 1);
                            assert(old_produced[k] == m);
                        }
                    }
                }
            }
            if alpha_now >= beta {
                self.update_move_ordering(mv, &board, depth, ply, None);
                break;
            }
        }
        proof {
            if mate_case {
                if alpha_now < beta {
                    let legal = legal_moves_of(board);
                    assert(legal.to_set().contains(mstar));
                    assert(it.produced().to_set().contains(mstar));
                }
            }
        }

        proof {
            if first && status_of(board) == Status::Ongoing {
                let legal = legal_moves_of(board);
                assert(legal.to_set().contains(legal[0]));
                assert(it.produced().len() == 0);
                assert(!it.produced().to_set().contains(legal[0]));
            }
        }
        let kind = if best_score > MATE_THRESHOLD || best_score < -MATE_THRESHOLD {
            // A mate score depends on the ply it was found at: not reusable.
            ResultKind::Empty
        } else if best_score <= alpha {
            ResultKind::UpperBound
        } else if best_score >= beta {
            ResultKind::LowerBound
        } else {
            ResultKind::Exact
        };
        assert(kind == bound_kind(best_score, alpha, beta));
        if replace_entry {
            self.save_tt_entry(SearchResult { hash, depth, score: best_score, kind, best_move });
        }
        Ok(best_score)
    }
}

/// `v` moved into `[-i16::MAX, i16::MAX]`.
pub open spec fn clamp_wide(v: int) -> int {
    if v < -(i16::MAX as int) {
        -(i16::MAX as int)
    } else if v > i16::MAX as int {
        i16::MAX as int
    } else {
        v
    }
}

/// Computes `clamp_wide`.
pub fn clamp_to_score(v: i32) -> (r: i16)
    ensures
        r == clamp_wide(v as int),
        is_score(r),
{
    if v < -(i16::MAX as i32) {
        -i16::MAX
    } else if v > i16::MAX as i32 {
        i16::MAX
    } else {
        v as i16
    }
}

impl<E: EvaluateEngine> Negamax<E> {
    /// Whether a move is among those of a list.
    fn listed(moves: &Vec<Move>, m: Move) -> (r: bool)
        ensures
            r == moves@.contains(m),
    {
        let mut i: usize = 0;
        while i < moves.len()
            invariant
                i <= moves@.len(),
                forall|j: int| 0 <= j < i ==> moves@[j] != m,
            decreases moves@.len() - i,
        {
            if moves[i] == m {
                return true;
            }
            i += 1;
        }
        false
    }

    /// Iterative deepening from the root: each depth up to `max_depth` is
    /// searched in an aspiration window around the previous score, widened
    /// and searched again on failure (unbounded after
    /// `MAX_ASPIRATION_RESEARCHES` failures). Returns a legal move whenever
    /// there is one and the evaluator does not fail; an evaluator failure
    /// is handed back.
    pub fn search_root(&mut self, state: GameState) -> (r: Result<Option<Move>, EvalError>)
        requires
            old(self).wf(),
            state.wf(),
            state.undo_stack@.len() < MAX_GAME_PLY,
        ensures
            final(self).wf(),
            r matches Ok(Some(m)) ==> is_legal(state.board, m) && m.wf(),
            r matches Ok(None) <==> legal_moves_of(state.board).len() == 0,
            legal_moves_of(state.board).len() == 0 ==> r matches Ok(None),
            E::never_fails() ==> r is Ok,
    {
        self.nodes_explored = 0;
        let mut p: usize = 0;
        while p < MAX_PLY
            invariant
                self.wf(),
            decreases MAX_PLY - p,
        {
            self.killer_moves.set(p, [None, None]);
            p += 1;
        }
        let mut line = state;
        let ghost start = line;
        let board = line.board;
        let legal = legal_moves(&board);
        if legal.len() == 0 {
            return Ok(None);
        }
        let hash = board_hash(&board);
        let max_depth = self.max_depth;
        let mut best_move: Option<Move> = None;
        let mut last_score: i16 = 0;
        let mut start_depth: u16 = 1;
        if let Some(e) = self.get_tt_entry(hash) {
            if e.kind == ResultKind::Exact && e.depth < max_depth {
                start_depth = e.depth + 1;
            } else if e.kind == ResultKind::Exact {
                start_depth = max_depth + 1;
            }
            if e.best_move.is_some() {
                best_move = e.best_move;
            }
        }
        let mut curr_depth: u16 = start_depth;
        while curr_depth <= max_depth
            invariant
                self.wf(),
                restored(start, line),
                start.wf(),
                start.undo_stack@.len() < MAX_GAME_PLY,
                board == start.board,
                board == state.board,
                legal@ == legal_moves_of(board),
                legal@.len() > 0,
                curr_depth >= 1,
                max_depth <= MAX_SEARCH_DEPTH,
                is_score(last_score),
            decreases max_depth + 1 - curr_depth,
        {
            let mut window: i32 = ASPIRATION_WINDOW as i32;
            let mut alpha_orig: i16 = clamp_to_score(last_score as i32 - window);
            let mut beta: i16 = clamp_to_score(last_score as i32 + window);
            let mut attempts: u32 = 0;
            loop
                invariant
                    self.wf(),
                    restored(start, line),
                    start.wf(),
                    start.undo_stack@.len() < MAX_GAME_PLY,
                    board == start.board,
                    board == state.board,
                    legal@ == legal_moves_of(board),
                    legal@.len() > 0,
                    1 <= curr_depth <= max_depth,
                        max_depth <= MAX_SEARCH_DEPTH,
                    is_score(last_score),
                    is_score(alpha_orig),
                    is_score(beta),
                    attempts <= MAX_ASPIRATION_RESEARCHES,
                    0 < window <= 32768,
                decreases MAX_ASPIRATION_RESEARCHES - attempts,
            {
                if attempts >= MAX_ASPIRATION_RESEARCHES {
                    alpha_orig = -i16::MAX;
                    beta = i16::MAX;
                }
                let killers = self.killer_moves[0];
                let mut it = StagedMoveIterator::new(board, best_move, &killers, None);
                let mut best_score: i16 = -i16::MAX;
                let mut alpha: i16 = alpha_orig;
                let mut found = false;
                loop
                    invariant
                        self.wf(),
                        line.wf(),
                        line.board == board,
                        line.undo_stack@ == start.undo_stack@,
                        start.undo_stack@.len() < MAX_GAME_PLY,
                        board == start.board,
                        board == state.board,
                        legal@ == legal_moves_of(board),
                        legal@.len() > 0,
                        1 <= curr_depth <= max_depth,
                        max_depth <= MAX_SEARCH_DEPTH,
                        it.wf(),
                        it.board == board,
                        is_score(alpha),
                        is_score(beta),
                        is_score(best_score),
                    decreases it.legal@.len() - it.pos,
                {
                    let mv = match it.next(&self.history_table) {
                        Some(m) => m,
                        None => {
                            break;
                        },
                    };
                    let repetition_count = line.make_move(mv);
                    let res: Result<i16, EvalError> = if repetition_count >= REPETITION_DRAW {
                        Ok(0)
                    } else {
                        match self.search_eval(&mut line, -beta, -alpha, curr_depth - 1, 1) {
                            Ok(v) => Ok(-v),
                            Err(e) => Err(e),
                        }
                    };
                    line.undo_last_move();
                    assert(line.undo_stack@ =~= start.undo_stack@);
                    let score = match res {
                        Ok(v) => v,
                        Err(e) => return Err(e),
                    };
                    if !found || score > best_score {
                        found = true;
                        best_score = score;
                        best_move = Some(mv);
                    }
                    if best_score > alpha {
                        alpha = best_score;
                    }
                    if alpha >= beta {
                        break;
                    }
                }
                if attempts >= MAX_ASPIRATION_RESEARCHES {
                    last_score = best_score;
                    break;
                }
                if best_score <= alpha_orig {
                    alpha_orig = clamp_to_score(alpha_orig as i32 - window);
                } else if best_score >= beta {
                    beta = clamp_to_score(beta as i32 + window);
                } else {
                    last_score = best_score;
                    break;
                }
                if window < 16384 {
                    window = window * 2;
                }
                attempts = attempts + 1;
            }
            curr_depth = curr_depth + 1;
        }
        match best_move {
            Some(m) => {
                if Self::listed(&legal, m) {
                    proof {
                        let j = choose|j: int| 0 <= j < legal@.len() && legal@[j] == m;
                        assert(legal@[j].wf());
                    }
                    return Ok(Some(m));
                }
            },
            None => {},
        }
        proof {
            assert(legal@.contains(legal@[0]));
            assert(legal@[0].wf());
        }
        Ok(Some(legal[0]))
    }
}

impl<E: EvaluateEngine> SearchEngine<E> for Negamax<E> {
    open spec fn engine_wf(&self) -> bool {
        self.wf()
    }

    open spec fn always_moves(&self) -> bool {
        E::never_fails()
    }

    open spec fn is_cleared(&self) -> bool {
        self.tables_empty()
    }

    /// Searches from `state`; an evaluator failure ends the search without
    /// a move.
    fn next_move(&mut self, state: GameState, _time_info: &Option<TimeInfo>) -> (r: Option<Move>) {
        match self.search_root(state) {
            Ok(m) => m,
            Err(_) => None,
        }
    }

    fn clear_search_state(&mut self) {
        self.reset_tables();
    }
}

} // verus!
