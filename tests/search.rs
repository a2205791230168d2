use cheese_engine::board::{board_from_fen, legal_moves, Move, PieceKind};
use cheese_engine::engine::{mated_in, EvalError, EvaluateEngine, SearchEngine, TimeInfo};
use cheese_engine::evaluation::CountMaterial;
use cheese_engine::mv_iter::StagedMoveIterator;
use cheese_engine::negamax::{
    clamp_score, clamp_to_score, Negamax, ResultKind, SearchResult, MAX_DEPTH,
    TRANSPOSITION_TABLE_SIZE,
};
use cheese_engine::ordering::{is_quiet_move, mvv_lvv_score, piece_value, see};
use cheese_engine::pst::PstEval;
use cheese_engine::state::GameState;

fn mv(from: u8, to: u8) -> Move {
    Move { from, to, promotion: None }
}

const SCHOLAR: &str = "r1bqkb1r/pppp1ppp/2n2n2/4p2Q/2B1P3/8/PPPP1PPP/RNB1K1NR w KQkq - 4 4";
const FOOLS_MATE: &str = "rnb1kbnr/pppp1ppp/8/4p3/6Pq/5P2/PPPPP2P/RNBQKBNR w KQkq - 1 3";
const HANGING_QUEEN: &str = "4k3/8/8/3q4/4P3/8/8/4K3 w - - 0 1";
const HANGING_QUEEN_MIRRORED: &str = "4k3/8/8/4p3/3Q4/8/8/4K3 b - - 0 1";
const START: &str = "rnbqkbnr/pppppppp/8/8/8/8/PPPPPPPP/RNBQKBNR w KQkq - 0 1";

fn drain(it: &mut StagedMoveIterator, history: &Vec<i32>) -> Vec<Move> {
    let mut out = Vec::new();
    while let Some(m) = it.next(history) {
        out.push(m);
    }
    out
}

fn same_set(a: &[Move], b: &[Move]) -> bool {
    a.len() == b.len() && a.iter().all(|m| b.contains(m))
}

#[test]
fn iterator_produces_every_legal_move_once() {
    let history = vec![0i32; 4096];
    for fen in [START, SCHOLAR, HANGING_QUEEN, "r3k2r/p1ppqpb1/bn2pnp1/3PN3/1p2P3/2N2Q1p/PPPBBPPP/R3K2R w KQkq - 0 1"] {
        let b = board_from_fen(fen).unwrap();
        let legal = legal_moves(&b);
        let mut it = StagedMoveIterator::new(b, None, &[None, None], None);
        let produced = drain(&mut it, &history);
        assert!(same_set(&produced, &legal), "{}", fen);
        assert!(it.next(&history).is_none());
    }
}

#[test]
fn iterator_stage_order() {
    let mut history = vec![0i32; 4096];
    let b = board_from_fen(SCHOLAR).unwrap();
    let legal = legal_moves(&b);
    let tt = mv(11, 19); // d3
    let killer = mv(1, 18); // Nc3
    history[6 * 64 + 21] = 500; // Nf3
    let mut it = StagedMoveIterator::new(b, Some(tt), &[Some(killer), Some(tt)], None);
    let produced = drain(&mut it, &history);
    assert!(same_set(&produced, &legal));
    // Every capture here loses material, so none counts as good: the hash
    // move, the killer and the history favourite come first.
    assert_eq!(produced[0], tt);
    assert_eq!(produced[1], killer);
    assert_eq!(produced[2], mv(6, 21));
    // The four losing captures close the list, the bishop's first.
    let n = produced.len();
    let tail = &produced[n - 4..];
    assert_eq!(tail[0], mv(26, 53));
    assert!(same_set(tail, &[mv(26, 53), mv(39, 53), mv(39, 36), mv(39, 55)]));
}

#[test]
fn capture_scores() {
    let b = board_from_fen(HANGING_QUEEN).unwrap();
    assert_eq!(mvv_lvv_score(&b, mv(28, 35)), 900 * 16 - 100);
    assert!(see(&b, mv(28, 35), 0));
    assert!(!is_quiet_move(&b, mv(28, 35)));
    assert!(is_quiet_move(&b, mv(28, 36)));
    assert_eq!(mvv_lvv_score(&b, mv(28, 36)), 0);
    let b = board_from_fen(SCHOLAR).unwrap();
    // Queen takes a pawn defended by the king: 100 - 900 fails the test at 0.
    assert!(!see(&b, mv(39, 53), 0));
    assert!(see(&b, mv(39, 53), -800));
    assert!(!see(&b, mv(39, 53), -799));
    assert_eq!(piece_value(PieceKind::Queen), 900);
    assert_eq!(piece_value(PieceKind::King), 0);
}

#[test]
fn promotion_adds_to_the_score() {
    let b = board_from_fen("4k3/P7/8/8/8/8/8/4K3 w - - 0 1").unwrap();
    let promo = Move { from: 48, to: 56, promotion: Some(PieceKind::Queen) };
    assert_eq!(mvv_lvv_score(&b, promo), 800);
}

#[test]
fn mate_scoring() {
    let state = GameState::from_fen(FOOLS_MATE).unwrap();
    assert_eq!(CountMaterial::score(&state), -30000);
    assert_eq!(CountMaterial.evaluate(&state), Ok(-30000));
    assert_eq!(PstEval::new().score(&state), -30000);
    assert_eq!(mated_in(7), -29993);
    assert_eq!(mated_in(5000), -29001);
    let mut engine = Negamax::new(CountMaterial);
    assert_eq!(engine.search_root(state.duplicate()), Ok(None));
    assert_eq!(engine.next_move(state, &None), None);
}

#[test]
fn finds_mate_in_one() {
    let mut engine = Negamax::with_max_depth(CountMaterial, 2);
    let state = GameState::from_fen(SCHOLAR).unwrap();
    assert_eq!(engine.next_move(state.duplicate(), &Some(TimeInfo::default())), Some(mv(39, 53)));
    let mut engine = Negamax::with_max_depth(CountMaterial, 2);
    let mut line = state.duplicate();
    let score = engine.search_eval(&mut line, -i16::MAX, i16::MAX, 2, 0).unwrap();
    assert!(score > 29000);
    assert_eq!(line.ply(), 0);
}

#[test]
fn start_position_move_is_sound() {
    let mut engine = Negamax::with_max_depth(CountMaterial, 3);
    let state = GameState::start().unwrap();
    let m = engine.next_move(state.duplicate(), &None).unwrap();
    assert!(legal_moves(&state.last_board()).contains(&m));
    // After the reply the material stays level: nothing was hung.
    let mut line = state.duplicate();
    line.make_move(m);
    let mut reply_engine = Negamax::with_max_depth(CountMaterial, 2);
    let reply = reply_engine.next_move(line.duplicate(), &None).unwrap();
    line.make_move(reply);
    assert!(CountMaterial::score(&line) >= 0);
}

#[test]
fn quiescence_sees_the_pending_capture() {
    let mut engine = Negamax::new(CountMaterial);
    let mut state = GameState::from_fen(HANGING_QUEEN).unwrap();
    let static_score = CountMaterial::score(&state);
    assert_eq!(static_score, -800);
    let q = engine.quiescence(&mut state, -i16::MAX, i16::MAX, 0).unwrap();
    assert!(q >= static_score);
    assert_eq!(q, 100);
    let mut s2 = GameState::from_fen("rnb1kbnr/pppppppp/8/3q4/4P3/8/PPPP1PPP/RNBQKBNR w KQkq - 0 1").unwrap();
    assert_eq!(CountMaterial.evaluate(&s2), Ok(0));
    assert_eq!(engine.quiescence(&mut s2, -i16::MAX, i16::MAX, 0), Ok(900));
    let mut quiet = GameState::start().unwrap();
    assert_eq!(engine.quiescence(&mut quiet, -i16::MAX, i16::MAX, 0).unwrap(), 0);
    assert_eq!(CountMaterial::score(&quiet), 0);
}

#[test]
fn negamax_symmetry_on_mirrored_positions() {
    for depth in 1..=2u16 {
        let mut a = Negamax::new(CountMaterial);
        let mut b = Negamax::new(CountMaterial);
        let mut s = GameState::from_fen(HANGING_QUEEN).unwrap();
        let mut m = GameState::from_fen(HANGING_QUEEN_MIRRORED).unwrap();
        let x = a.search_eval(&mut s, -i16::MAX, i16::MAX, depth, 0).unwrap();
        let y = b.search_eval(&mut m, -i16::MAX, i16::MAX, depth, 0).unwrap();
        assert_eq!(x, y);
    }
}

#[test]
fn transposition_table_keeps_scores() {
    for fen in [HANGING_QUEEN, SCHOLAR] {
        let mut engine = Negamax::new(CountMaterial);
        let mut state = GameState::from_fen(fen).unwrap();
        let cold = engine.search_eval(&mut state, -i16::MAX, i16::MAX, 2, 0).unwrap();
        let warm = engine.search_eval(&mut state, -i16::MAX, i16::MAX, 2, 0).unwrap();
        let mut fresh = Negamax::new(CountMaterial);
        let again = fresh.search_eval(&mut state, -i16::MAX, i16::MAX, 2, 0).unwrap();
        assert_eq!(cold, warm);
        assert_eq!(cold, again);
    }
}

#[test]
fn table_probe_checks_the_full_hash() {
    let mut engine = Negamax::new(CountMaterial);
    let h: u64 = 0x1234_5678_9abc_def0;
    let entry = SearchResult { hash: h, depth: 3, score: 42, kind: ResultKind::Exact, best_move: Some(mv(12, 28)) };
    engine.save_tt_entry(entry);
    assert_eq!(engine.get_tt_entry(h), Some(entry));
    assert_eq!(engine.get_tt_entry(h.wrapping_add(TRANSPOSITION_TABLE_SIZE as u64)), None);
    let unused = SearchResult { kind: ResultKind::Empty, ..entry };
    engine.save_tt_entry(unused);
    assert_eq!(engine.get_tt_entry(h), None);
    assert_eq!(ResultKind::default(), ResultKind::Empty);
    assert_eq!(SearchResult::empty().kind, ResultKind::Empty);
}

#[test]
fn cutoff_updates_killers_and_history() {
    let mut engine = Negamax::new(CountMaterial);
    let b = board_from_fen(START).unwrap();
    engine.update_move_ordering(mv(6, 21), &b, 3, 2, Some(10));
    assert_eq!(engine.killer_moves[2], [Some(mv(6, 21)), None]);
    assert_eq!(engine.history_table[6 * 64 + 21], 9);
    assert_eq!(engine.counter_moves[10], Some(mv(6, 21)));
    engine.update_move_ordering(mv(12, 28), &b, 2, 2, None);
    assert_eq!(engine.killer_moves[2], [Some(mv(12, 28)), Some(mv(6, 21))]);
    assert_eq!(engine.history_table[12 * 64 + 28], 4);
    // The same killer again does not push the second one out.
    engine.update_move_ordering(mv(12, 28), &b, 2, 2, None);
    assert_eq!(engine.killer_moves[2], [Some(mv(12, 28)), Some(mv(6, 21))]);
    assert_eq!(engine.history_move_count, 3);
    // A capture changes nothing.
    let c = board_from_fen(HANGING_QUEEN).unwrap();
    engine.update_move_ordering(mv(28, 35), &c, 4, 2, None);
    assert_eq!(engine.history_move_count, 3);
    assert_eq!(engine.history_table[28 * 64 + 35], 0);
}

#[test]
fn history_ages_every_period() {
    let mut engine = Negamax::new(CountMaterial);
    let b = board_from_fen(START).unwrap();
    for _ in 0..1023 {
        engine.update_move_ordering(mv(6, 21), &b, 1, 0, None);
    }
    assert_eq!(engine.history_table[6 * 64 + 21], 1023);
    engine.update_move_ordering(mv(6, 21), &b, 1, 0, None);
    assert_eq!(engine.history_table[6 * 64 + 21], 512);
    assert_eq!(engine.history_move_count, 0);
    engine.age_history();
    assert_eq!(engine.history_table[6 * 64 + 21], 256);
}

#[test]
fn clearing_forgets_the_tables() {
    let mut engine = Negamax::new(CountMaterial);
    let b = board_from_fen(START).unwrap();
    engine.update_move_ordering(mv(6, 21), &b, 3, 2, Some(10));
    SearchEngine::<CountMaterial>::clear_search_state(&mut engine);
    assert_eq!(engine.killer_moves[2], [None, None]);
    assert_eq!(engine.history_table[6 * 64 + 21], 0);
    assert_eq!(engine.counter_moves[10], None);
    assert_eq!(MAX_DEPTH, engine.max_depth);
}

#[test]
fn score_clamps() {
    assert_eq!(clamp_score(i16::MIN), -i16::MAX);
    assert_eq!(clamp_score(-5), -5);
    assert_eq!(clamp_to_score(100_000), i16::MAX);
    assert_eq!(clamp_to_score(-100_000), -i16::MAX);
    assert_eq!(clamp_to_score(1234), 1234);
}

struct Broken;

impl EvaluateEngine for Broken {
    fn evaluate(&mut self, _state: &GameState) -> Result<i16, EvalError> {
        Err(EvalError { message: "backend unavailable".to_string() })
    }
}

#[test]
fn evaluator_failure_is_handed_back() {
    let mut engine = Negamax::with_max_depth(Broken, 2);
    let state = GameState::start().unwrap();
    let r = engine.search_root(state.duplicate());
    assert_eq!(r, Err(EvalError { message: "backend unavailable".to_string() }));
    assert_eq!(engine.next_move(state, &None), None);
}

#[test]
fn en_passant_is_a_capture() {
    // White pawn e5, black pawn just played d7-d5.
    let b = board_from_fen("4k3/8/8/3pP3/8/8/8/4K3 w - d6 0 1").unwrap();
    let ep = mv(36, 43);
    assert!(legal_moves(&b).contains(&ep));
    assert!(!is_quiet_move(&b, ep));
    assert_eq!(mvv_lvv_score(&b, ep), 100 * 16 - 100);
    assert!(see(&b, ep, 0));
}

#[test]
fn losing_mate_scores_are_not_cached() {
    // Black to move: after Kg8 or b5 the rook mates on a8.
    let mut engine = Negamax::new(CountMaterial);
    let mut state = GameState::from_fen("7k/8/1p4K1/8/8/8/8/R7 b - - 0 1").unwrap();
    let score = engine.search_eval(&mut state, -i16::MAX, i16::MAX, 2, 0).unwrap();
    assert!(score < -29000);
    let h = cheese_engine::board::board_hash(&state.last_board());
    assert_eq!(engine.get_tt_entry(h), None);
}
