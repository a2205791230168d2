//! The staged move iterator: the legal moves of a position in an order
//! meant to find cutoffs early. The hash move comes first, then the good
//! captures, the two killer moves, the counter move, the quiet moves by
//! history score and last the bad captures. Each stage is filled only when
//! the moves before it have been taken.
use crate::board::{is_capture, is_legal, legal_moves, legal_moves_of, Move};
use crate::ordering::{mvv_lvv, mvv_lvv_score, see, see_passes};
use chess::Board;
use vstd::prelude::*;

verus! {

broadcast use vstd::seq_lib::group_seq_properties;

/// The number of stages.
pub const STAGE_COUNT: u8 = 7;

/// The stage in which a legal move is produced: 0 for the hash move, 1 for a
/// good capture, 2 and 3 for the killer moves, 4 for the counter move, 5 for
/// any other quiet move and 6 for a bad capture.
pub open spec fn stage_of(
    b: Board,
    tt_move: Option<Move>,
    killer1: Option<Move>,
    killer2: Option<Move>,
    counter: Option<Move>,
    m: Move,
) -> int {
    if tt_move == Some(m) {
        0
    } else if is_capture(b, m) {
        if see_passes(b, m, 0) {
            1
        } else {
            6
        }
    } else if killer1 == Some(m) {
        2
    } else if killer2 == Some(m) {
        3
    } else if counter == Some(m) {
        4
    } else {
        5
    }
}

/// The stages of captures, which come by descending `mvv_lvv`.
pub open spec fn is_capture_stage(s: int) -> bool {
    s == 1 || s == 6
}

/// The index of the history entry of a move.
pub open spec fn history_index(m: Move) -> int {
    m.from as int * 64 + m.to as int
}

/// Relies on `slice::sort_by_key`, a stable sort: a permutation of the
/// entries, in ascending order of their second field.
#[verifier::external_body]
pub(crate) fn sort_by_rank(v: &mut Vec<(Move, i64)>)
    ensures
        final(v)@.to_multiset() == old(v)@.to_multiset(),
        forall|i: int, j: int| 0 <= i < j < final(v)@.len() ==> final(v)@[i].1 <= final(v)@[j].1,
{
    v.sort_by_key(|p| p.1)
}

/// A permutation of a list of keyed moves with distinct moves has distinct
/// moves too, and the same entries.
proof fn lemma_sorted_block(c: Seq<(Move, i64)>, b: Seq<(Move, i64)>)
    requires
        b.to_multiset() == c.to_multiset(),
        forall|a: int, d: int| 0 <= a < d < c.len() ==> c[a].0 != c[d].0,
    ensures
        forall|i: int, j: int| 0 <= i < b.len() && 0 <= j < b.len() && i != j
            ==> #[trigger] b[i].0 != #[trigger] b[j].0,
        forall|k: int| 0 <= k < b.len() ==> c.contains(#[trigger] b[k]),
        forall|a: int| 0 <= a < c.len() ==> b.contains(#[trigger] c[a]),
{
    c.to_multiset_ensures();
    b.to_multiset_ensures();
    assert(c.no_duplicates()) by {
        assert forall|a: int, d: int| 0 <= a < c.len() && 0 <= d < c.len() && a != d implies c[a]
            != c[d] by {
            if a < d {
                assert(c[a].0 != c[d].0);
            } else {
                assert(c[d].0 != c[a].0);
            }
        }
    }
    c.lemma_multiset_has_no_duplicates();
    assert forall|x: (Move, i64)| b.to_multiset().contains(x) implies b.to_multiset().count(x)
        == 1 by {
        assert(c.to_multiset().contains(x));
    }
    b.lemma_multiset_has_no_duplicates_conv();
    assert forall|k: int| 0 <= k < b.len() implies c.contains(#[trigger] b[k]) by {
        assert(b.contains(b[k]));
        assert(c.to_multiset().count(b[k]) > 0);
        assert(c.contains(b[k]));
        let a = choose|a: int| 0 <= a < c.len() && c[a] == b[k];
        assert(c[a] == b[k]);
    }
    assert forall|a: int| 0 <= a < c.len() implies b.contains(#[trigger] c[a]) by {
        assert(c.contains(c[a]));
        assert(b.to_multiset().count(c[a]) > 0);
        assert(b.contains(c[a]));
        let k = choose|k: int| 0 <= k < b.len() && b[k] == c[a];
        assert(b[k] == c[a]);
    }
    assert forall|i: int, j: int| 0 <= i < b.len() && 0 <= j < b.len() && i != j implies #[trigger] b[i].0
        != #[trigger] b[j].0 by {
        if b[i].0 == b[j].0 {
            let a1 = choose|a: int| 0 <= a < c.len() && c[a] == b[i];
            let a2 = choose|a: int| 0 <= a < c.len() && c[a] == b[j];
            if a1 < a2 {
                assert(c[a1].0 != c[a2].0);
            } else if a2 < a1 {
                assert(c[a2].0 != c[a1].0);
            }
        }
    }
}

/// A list without repeats drawn from another list is no longer than it.
proof fn lemma_unique_sublist_len(a: Seq<Move>, b: Seq<Move>)
    requires
        a.no_duplicates(),
        forall|i: int| 0 <= i < a.len() ==> b.contains(#[trigger] a[i]),
    ensures
        a.len() <= b.len(),
{
    broadcast use vstd::seq_lib::seq_to_set_is_finite;

    a.unique_seq_to_set();
    b.lemma_cardinality_of_set();
    assert forall|x: Move| a.to_set().contains(x) implies b.to_set().contains(x) by {
        let i = choose|i: int| 0 <= i < a.len() && a[i] == x;
        assert(b.contains(a[i]));
    }
    vstd::set_lib::lemma_len_subset(a.to_set(), b.to_set());
}

/// A lazily ordered enumeration of the legal moves of a position.
pub struct StagedMoveIterator {
    pub board: Board,
    pub legal: Vec<Move>,
    pub tt_move: Option<Move>,
    pub killer1: Option<Move>,
    pub killer2: Option<Move>,
    pub counter_move: Option<Move>,
    /// The next stage to fill.
    pub stage: u8,
    /// The moves of the stages filled so far, in the order they are produced.
    pub order: Vec<Move>,
    /// How many moves of `order` have been produced.
    pub pos: usize,
    /// The history scores the quiet moves were ordered by.
    pub quiet_history: Ghost<Seq<i32>>,
}

impl StagedMoveIterator {
    /// The stage in which this enumeration produces a legal move.
    #[verifier::inline]
    pub open spec fn stage_of_move(&self, m: Move) -> int {
        stage_of(self.board, self.tt_move, self.killer1, self.killer2, self.counter_move, m)
    }

    /// The moves produced so far.
    pub open spec fn produced(&self) -> Seq<Move> {
        self.order@.take(self.pos as int)
    }

    pub open spec fn wf(&self) -> bool {
        &&& self.legal@ == legal_moves_of(self.board)
        &&& self.legal@.no_duplicates()
        &&& forall|i: int| 0 <= i < self.legal@.len() ==> (#[trigger] self.legal@[i]).wf()
        &&& self.stage <= STAGE_COUNT
        &&& self.pos <= self.order@.len()
        &&& self.order@.len() <= self.legal@.len()
        &&& self.order@.no_duplicates()
        &&& forall|i: int|
            0 <= i < self.order@.len() ==> self.legal@.contains(#[trigger] self.order@[i])
                && self.stage_of_move(self.order@[i]) < self.stage
        &&& forall|i: int, j: int|
            0 <= i < j < self.order@.len() ==> self.stage_of_move(#[trigger] self.order@[i])
                <= self.stage_of_move(#[trigger] self.order@[j])
        &&& forall|m: Move|
            self.legal@.contains(m) && #[trigger] self.stage_of_move(m) < self.stage
                ==> self.order@.contains(m)
        &&& forall|i: int, j: int|
            0 <= i < j < self.order@.len() && self.stage_of_move(self.order@[i])
                == self.stage_of_move(self.order@[j]) && is_capture_stage(
                self.stage_of_move(self.order@[i]),
            ) ==> mvv_lvv(self.board, #[trigger] self.order@[i]) >= mvv_lvv(
                self.board,
                #[trigger] self.order@[j],
            )
        &&& self.stage > 5 ==> self.quiet_history@.len() == 4096
        &&& forall|i: int, j: int|
            0 <= i < j < self.order@.len() && self.stage_of_move(self.order@[i]) == 5
                && self.stage_of_move(self.order@[j]) == 5 ==> self.quiet_history@[history_index(
                #[trigger] self.order@[i],
            )] >= self.quiet_history@[history_index(#[trigger] self.order@[j])]
    }

    /// Starts the enumeration of the legal moves of `board`, given the hash
    /// move, the two killer moves of this ply and the counter move.
    pub fn new(
        board: Board,
        tt_move: Option<Move>,
        killer_moves: &[Option<Move>; 2],
        counter_move: Option<Move>,
    ) -> (r: StagedMoveIterator)
        ensures
            r.wf(),
            r.board == board,
            r.tt_move == tt_move,
            r.killer1 == killer_moves[0],
            r.killer2 == killer_moves[1],
            r.counter_move == counter_move,
            r.produced().len() == 0,
    {
        let legal = legal_moves(&board);
        StagedMoveIterator {
            board,
            legal,
            tt_move,
            killer1: killer_moves[0],
            killer2: killer_moves[1],
            counter_move,
            stage: 0,
            order: Vec::new(),
            pos: 0,
            quiet_history: Ghost(Seq::empty()),
        }
    }

    /// The stage of a legal move, computed.
    fn move_stage(&self, m: Move) -> (r: u8)
        requires
            m.wf(),
        ensures
            r == self.stage_of_move(m),
    {
        if self.tt_move == Some(m) {
            0
        } else if !crate::ordering::is_quiet_move(&self.board, m) {
            if see(&self.board, m, 0) {
                1
            } else {
                6
            }
        } else if self.killer1 == Some(m) {
            2
        } else if self.killer2 == Some(m) {
            3
        } else if self.counter_move == Some(m) {
            4
        } else {
            5
        }
    }

    /// The legal moves of stage `s`, each with its sort key (captures by
    /// descending ordering score, quiet moves by descending history score),
    /// in the order of generation.
    fn collect_stage(&self, s: u8, history: &Vec<i32>) -> (r: Vec<(Move, i64)>)
        requires
            self.wf(),
            history@.len() == 4096,
        ensures
            forall|k: int| 0 <= k < r@.len() ==> self.legal@.contains(#[trigger] r@[k].0)
                && self.stage_of_move(r@[k].0) == s,
            forall|m: Move| self.legal@.contains(m) && #[trigger] self.stage_of_move(m) == s
                ==> exists|k: int| 0 <= k < r@.len() && r@[k].0 == m,
            forall|a: int, c: int| 0 <= a < c < r@.len() ==> r@[a].0 != r@[c].0,
            forall|k: int| 0 <= k < r@.len() ==> (s == 1 || s == 6) ==> #[trigger] r@[k].1
                == -mvv_lvv(self.board, r@[k].0),
            forall|k: int| 0 <= k < r@.len() ==> s == 5 ==> #[trigger] r@[k].1
                == -history@[history_index(r@[k].0)],
    {
        let mut out: Vec<(Move, i64)> = Vec::new();
        let ghost mut idx: Seq<int> = Seq::empty();
        let mut i: usize = 0;
        while i < self.legal.len()
            invariant
                self.wf(),
                history@.len() == 4096,
                i <= self.legal@.len(),
                idx.len() == out@.len(),
                forall|k: int| 0 <= k < out@.len() ==> 0 <= #[trigger] idx[k] < i
                    && self.legal@[idx[k]] == out@[k].0,
                forall|a: int, c: int| 0 <= a < c < out@.len() ==> #[trigger] idx[a] < #[trigger] idx[c],
                forall|k: int| 0 <= k < out@.len() ==> self.stage_of_move(#[trigger] out@[k].0) == s,
                forall|j: int| 0 <= j < i && self.stage_of_move(#[trigger] self.legal@[j]) == s
                    ==> exists|k: int| 0 <= k < out@.len() && out@[k].0 == self.legal@[j],
                forall|k: int| 0 <= k < out@.len() ==> (s == 1 || s == 6) ==> #[trigger] out@[k].1
                    == -mvv_lvv(self.board, out@[k].0),
                forall|k: int| 0 <= k < out@.len() ==> s == 5 ==> #[trigger] out@[k].1
                    == -history@[history_index(out@[k].0)],
            decreases self.legal@.len() - i,
        {
            let m = self.legal[i];
            assert(m.wf());
            let ghost old_out = out@;
            if self.move_stage(m) == s {
                let key: i64 = if s == 1 || s == 6 {
                    -(mvv_lvv_score(&self.board, m) as i64)
                } else if s == 5 {
                    let h = (m.from as usize) * 64 + (m.to as usize);
                    -(history[h] as i64)
                } else {
                    0
                };
                out.push((m, key));
                proof {
                    idx = idx.push(i as int);
                    assert(out@[out@.len() - 1].0 == self.legal@[i as int]);
                }
            }
            proof {
                assert forall|j: int|
                    0 <= j < i + 1 && self.stage_of_move(#[trigger] self.legal@[j]) == s implies exists|
                        k: int,
                    | 0 <= k < out@.len() && out@[k].0 == self.legal@[j] by {
                    if j < i {
                        let k = choose|k: int| 0 <= k < old_out.len() && old_out[k].0 == self.legal@[j];
                        assert(out@[k] == old_out[k]);
                    } else {
                        assert(out@[out@.len() - 1].0 == self.legal@[j]);
                    }
                }
            }
            i += 1;
        }
        proof {
            assert forall|m: Move| self.legal@.contains(m) && #[trigger] self.stage_of_move(m) == s
                implies exists|k: int| 0 <= k < out@.len() && out@[k].0 == m by {
                let j = choose|j: int| 0 <= j < self.legal@.len() && self.legal@[j] == m;
                assert(self.stage_of_move(self.legal@[j]) == s);
            }
            assert forall|k: int| 0 <= k < out@.len() implies self.legal@.contains(#[trigger] out@[k].0)
                && self.stage_of_move(out@[k].0) == s by {
                assert(self.legal@[idx[k]] == out@[k].0);
            }
            assert forall|a: int, c: int| 0 <= a < c < out@.len() implies out@[a].0 != out@[c].0 by {
                assert(idx[a] < idx[c]);
                assert(self.legal@[idx[a]] != self.legal@[idx[c]]);
            }
        }
        out
    }

    /// Appends the moves of the next stage to `order`, in descending order
    /// of their score.
    #[verifier::rlimit(80)]
    fn fill_stage(&mut self, history: &Vec<i32>)
        requires
            old(self).wf(),
            old(self).stage < STAGE_COUNT,
            history@.len() == 4096,
        ensures
            final(self).wf(),
            final(self).board == old(self).board,
            final(self).tt_move == old(self).tt_move,
            final(self).killer1 == old(self).killer1,
            final(self).killer2 == old(self).killer2,
            final(self).counter_move == old(self).counter_move,
            final(self).stage == old(self).stage + 1,
            final(self).pos == old(self).pos,
            final(self).legal@ == old(self).legal@,
            final(self).order@.len() >= old(self).order@.len(),
            final(self).order@.take(old(self).order@.len() as int) == old(self).order@,
            old(self).stage == 5 ==> final(self).quiet_history@ == history@,
            old(self).stage != 5 ==> final(self).quiet_history == old(self).quiet_history,
    {
        let s = self.stage;
        if s == 5 {
            self.quiet_history = Ghost(history@);
        }
        let collected = self.collect_stage(s, history);
        let mut block = collected;
        sort_by_rank(&mut block);
        proof {
            lemma_sorted_block(collected@, block@);
            assert forall|i: int| 0 <= i < block@.len() implies (s == 1 || s == 6) ==> #[trigger] block@[i].1
                == -mvv_lvv(self.board, block@[i].0) by {
                let a = choose|a: int| 0 <= a < collected@.len() && collected@[a] == block@[i];
                assert(collected@[a] == block@[i]);
            }
            assert forall|i: int| 0 <= i < block@.len() implies s == 5 ==> #[trigger] block@[i].1
                == -history@[history_index(block@[i].0)] by {
                let a = choose|a: int| 0 <= a < collected@.len() && collected@[a] == block@[i];
                assert(collected@[a] == block@[i]);
            }
        }
        let ghost old_order = self.order@;
        let mut k: usize = 0;
        while k < block.len()
            invariant
                self.wf_except_order(),
                self.board == old(self).board,
                self.legal@ == old(self).legal@,
                self.tt_move == old(self).tt_move,
                self.killer1 == old(self).killer1,
                self.killer2 == old(self).killer2,
                self.counter_move == old(self).counter_move,
                self.stage == s,
                self.pos == old(self).pos,
                old(self).wf(),
                old_order == old(self).order@,
                k <= block@.len(),
                self.order@.len() == old_order.len() + k,
                self.order@.take(old_order.len() as int) == old_order,
                forall|i: int|
                    old_order.len() <= i < self.order@.len() ==> #[trigger] self.order@[i]
                        == block@[i - old_order.len()].0,
                forall|i: int| 0 <= i < block@.len() ==> self.legal@.contains(#[trigger] block@[i].0)
                    && self.stage_of_move(block@[i].0) == s,
                forall|i: int, j: int| 0 <= i < block@.len() && 0 <= j < block@.len() && i != j
                    ==> #[trigger] block@[i].0 != #[trigger] block@[j].0,
                forall|i: int, j: int| 0 <= i < j < block@.len() ==> #[trigger] block@[i].1
                    <= #[trigger] block@[j].1,
                forall|i: int| 0 <= i < block@.len() ==> (s == 1 || s == 6) ==> #[trigger] block@[i].1
                    == -mvv_lvv(self.board, block@[i].0),
                forall|i: int| 0 <= i < block@.len() ==> s == 5 ==> #[trigger] block@[i].1
                    == -history@[history_index(block@[i].0)],
                s == 5 ==> self.quiet_history@ == history@,
                s != 5 ==> self.quiet_history == old(self).quiet_history,
                history@.len() == 4096,
            decreases block@.len() - k,
        {
            self.order.push(block[k].0);
            k += 1;
        }
        self.stage = s + 1;
        proof {
            let o = self.order@;
            let n = old_order.len();
            assert forall|i: int| 0 <= i < o.len() implies self.legal@.contains(#[trigger] o[i])
                && self.stage_of_move(o[i]) < self.stage by {
                if i < n {
                    assert(o[i] == old_order[i]);
                } else {
                    assert(o[i] == block@[i - n].0);
                }
            }
            assert(o.no_duplicates()) by {
                assert forall|i: int, j: int| 0 <= i < o.len() && 0 <= j < o.len() && i != j
                    implies o[i] != o[j] by {
                    if i < n && j < n {
                        assert(o[i] == old_order[i] && o[j] == old_order[j]);
                    } else if i < n {
                        assert(o[i] == old_order[i]);
                        assert(o[j] == block@[j - n].0);
                    } else if j < n {
                        assert(o[j] == old_order[j]);
                        assert(o[i] == block@[i - n].0);
                    } else {
                        assert(o[i] == block@[i - n].0);
                        assert(o[j] == block@[j - n].0);
                    }
                }
            }
            lemma_unique_sublist_len(o, self.legal@);
            assert forall|i: int, j: int|
                0 <= i < j < o.len() && self.stage_of_move(o[i]) == 5 && self.stage_of_move(o[j])
                    == 5 implies self.quiet_history@[history_index(#[trigger] o[i])]
                >= self.quiet_history@[history_index(#[trigger] o[j])] by {
                if j < n {
                    assert(o[i] == old_order[i] && o[j] == old_order[j]);
                } else if i < n {
                    assert(o[i] == old_order[i]);
                    assert(o[j] == block@[j - n].0);
                } else {
                    assert(o[i] == block@[i - n].0);
                    assert(o[j] == block@[j - n].0);
                    assert(block@[i - n].1 <= block@[j - n].1);
                }
            }
            assert forall|i: int, j: int|
                0 <= i < j < o.len() && self.stage_of_move(o[i]) == self.stage_of_move(o[j])
                    && is_capture_stage(self.stage_of_move(o[i])) implies mvv_lvv(
                self.board,
                #[trigger] o[i],
            ) >= mvv_lvv(self.board, #[trigger] o[j]) by {
                if j < n {
                    assert(o[i] == old_order[i] && o[j] == old_order[j]);
                } else if i < n {
                    assert(o[i] == old_order[i]);
                    assert(o[j] == block@[j - n].0);
                } else {
                    assert(o[i] == block@[i - n].0);
                    assert(o[j] == block@[j - n].0);
                    assert(block@[i - n].1 <= block@[j - n].1);
                }
            }
            assert forall|i: int, j: int| 0 <= i < j < o.len() implies self.stage_of_move(
                #[trigger] o[i],
            ) <= self.stage_of_move(#[trigger] o[j]) by {
                if j < n {
                    assert(o[i] == old_order[i] && o[j] == old_order[j]);
                } else if i < n {
                    assert(o[i] == old_order[i]);
                    assert(o[j] == block@[j - n].0);
                } else {
                    assert(o[i] == block@[i - n].0);
                    assert(o[j] == block@[j - n].0);
                }
            }
            assert forall|m: Move| self.legal@.contains(m) && #[trigger] self.stage_of_move(m)
                < self.stage implies o.contains(m) by {
                assert(old(self).stage_of_move(m) == self.stage_of_move(m));
                if self.stage_of_move(m) < s {
                    assert(old_order.contains(m));
                    let i = choose|i: int| 0 <= i < n && old_order[i] == m;
                    assert(o[i] == m);
                } else {
                    let a = choose|a: int| 0 <= a < collected@.len() && collected@[a].0 == m;
                    assert(block@.contains(collected@[a]));
                    let kk = choose|kk: int| 0 <= kk < block@.len() && block@[kk] == collected@[a];
                    assert(o[n + kk] == m);
                }
            }
        }
    }

    /// Everything `wf` says but what concerns `order`.
    pub open spec fn wf_except_order(&self) -> bool {
        &&& self.legal@ == legal_moves_of(self.board)
        &&& self.legal@.no_duplicates()
        &&& forall|i: int| 0 <= i < self.legal@.len() ==> (#[trigger] self.legal@[i]).wf()
        &&& self.stage <= STAGE_COUNT
    }

    /// The next move, or `None` once every legal move has been produced.
    /// `history` holds the history score of each (from, to) pair, read when
    /// the quiet moves are ordered.
    pub fn next(&mut self, history: &Vec<i32>) -> (r: Option<Move>)
        requires
            old(self).wf(),
            history@.len() == 4096,
        ensures
            final(self).wf(),
            final(self).board == old(self).board,
            final(self).tt_move == old(self).tt_move,
            final(self).killer1 == old(self).killer1,
            final(self).killer2 == old(self).killer2,
            final(self).counter_move == old(self).counter_move,
            final(self).legal@ == old(self).legal@,
            old(self).stage <= 5 < final(self).stage ==> final(self).quiet_history@ == history@,
            old(self).stage > 5 ==> final(self).quiet_history == old(self).quiet_history,
            match r {
                Some(m) => is_legal(old(self).board, m) && m.wf() && final(self).pos == old(self).pos
                    + 1 && final(self).produced() == old(self).produced().push(m),
                None => final(self).produced() == old(self).produced() && final(self).pos == old(
                    self,
                ).pos
                    && final(self).produced().to_set() == legal_moves_of(old(self).board).to_set(),
            },
    {
        loop
            invariant
                self.wf(),
                history@.len() == 4096,
                self.board == old(self).board,
                self.tt_move == old(self).tt_move,
                self.killer1 == old(self).killer1,
                self.killer2 == old(self).killer2,
                self.counter_move == old(self).counter_move,
                self.legal@ == old(self).legal@,
                self.pos == old(self).pos,
                old(self).stage <= 5 < self.stage ==> self.quiet_history@ == history@,
                old(self).stage > 5 || self.stage <= 5 ==> self.quiet_history == old(
                    self,
                ).quiet_history,
                self.stage >= old(self).stage,
                self.order@.len() >= old(self).order@.len(),
                self.order@.take(old(self).order@.len() as int) == old(self).order@,
                old(self).pos <= old(self).order@.len(),
            decreases STAGE_COUNT - self.stage,
        {
            if self.pos < self.order.len() {
                let m = self.order[self.pos];
                proof {
                    assert(self.legal@.contains(m));
                    let j = choose|j: int| 0 <= j < self.legal@.len() && self.legal@[j] == m;
                    assert(self.legal@[j].wf());
                    assert(self.order@.take(self.pos as int) == old(self).produced()) by {
                        assert forall|i: int| 0 <= i < self.pos implies #[trigger] self.order@[i]
                            == old(self).order@[i] by {
                            assert(self.order@.take(old(self).order@.len() as int)[i]
                                == self.order@[i]);
                        }
                        assert(self.order@.take(self.pos as int) =~= old(self).order@.take(
                            self.pos as int,
                        ));
                    }
                    assert(self.order@.take(self.pos + 1) =~= self.order@.take(
                        self.pos as int,
                    ).push(m));
                }
                self.pos = self.pos + 1;
                assert(self.wf());
                return Some(m);
            }
            if self.stage >= STAGE_COUNT {
                proof {
                    assert(self.order@.take(self.pos as int) =~= self.order@);
                    assert(old(self).produced() =~= old(self).order@.take(self.pos as int));
                    assert(self.order@.len() == old(self).order@.len());
                    assert(self.order@ =~= self.order@.take(old(self).order@.len() as int));
                    assert forall|m: Move| self.produced().to_set().contains(m) <==> legal_moves_of(
                        old(self).board,
                    ).to_set().contains(m) by {
                        if self.legal@.contains(m) {
                            assert(self.stage_of_move(m) < self.stage);
                        }
                        if self.order@.contains(m) {
                            let i = choose|i: int| 0 <= i < self.order@.len() && self.order@[i] == m;
                            assert(self.legal@.contains(self.order@[i]));
                        }
                    }
                    assert(self.produced().to_set() =~= legal_moves_of(old(self).board).to_set());
                }
                return None;
            }
            let ghost before = self.order@;
            self.fill_stage(history);
            proof {
                let n = old(self).order@.len() as int;
                assert forall|i: int| 0 <= i < n implies #[trigger] self.order@[i]
                    == old(self).order@[i] by {
                    assert(self.order@.take(before.len() as int)[i] == self.order@[i]);
                    assert(before.take(n)[i] == before[i]);
                }
                assert(self.order@.take(n) =~= old(self).order@);
            }
        }
    }
}

} // verus!
