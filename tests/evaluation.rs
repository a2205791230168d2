use cheese_engine::board::{board_from_fen, Move};
use cheese_engine::evaluation::CountMaterial;
use cheese_engine::engine::EvaluateEngine;
use cheese_engine::pst::{read_squares, PstEval};
use cheese_engine::state::GameState;

#[test]
fn material_from_the_side_to_move() {
    let white = GameState::from_fen("4k3/8/8/3q4/4P3/8/8/4K3 w - - 0 1").unwrap();
    assert_eq!(CountMaterial::score(&white), -800);
    let black = GameState::from_fen("4k3/8/8/3q4/4P3/8/8/4K3 b - - 0 1").unwrap();
    assert_eq!(CountMaterial::score(&black), 800);
    let mut eval = CountMaterial;
    assert_eq!(eval.evaluate(&white), Ok(-800));
    let start = GameState::start().unwrap();
    assert_eq!(CountMaterial::score(&start), 0);
}

#[test]
fn stalemate_scores_zero() {
    let state = GameState::from_fen("7k/5Q2/6K1/8/8/8/8/8 b - - 0 1").unwrap();
    assert_eq!(CountMaterial::score(&state), 0);
    assert_eq!(PstEval::new().score(&state), 0);
}

#[test]
fn pst_is_symmetric_and_favours_material() {
    let eval = PstEval::new();
    let start = GameState::start().unwrap();
    assert_eq!(eval.score(&start), 0);
    let a = GameState::from_fen("4k3/8/8/3q4/4P3/8/8/4K3 w - - 0 1").unwrap();
    let b = GameState::from_fen("4k3/8/8/4p3/3Q4/8/8/4K3 b - - 0 1").unwrap();
    assert_eq!(eval.score(&a), eval.score(&b));
    assert!(eval.score(&a) < -500);
    let mut e = PstEval::new();
    assert_eq!(e.evaluate(&a), Ok(eval.score(&a)));
}

#[test]
fn interpolation_and_distances() {
    assert_eq!(PstEval::interpolate(100, 200, 128), 150);
    assert_eq!(PstEval::interpolate(100, 200, 0), 100);
    assert_eq!(PstEval::interpolate(100, 200, 256), 200);
    assert_eq!(PstEval::interpolate(-1, 0, 128), 0);
    assert_eq!(PstEval::interpolate(-300, -100, 64), -250);
    assert_eq!(PstEval::manhattan_distance(0, 63), 14);
    assert_eq!(PstEval::manhattan_distance(27, 27), 0);
    assert_eq!(PstEval::edge_distance(27), 3);
    assert_eq!(PstEval::edge_distance(7), 0);
    assert_eq!(PstEval::edge_distance(9), 1);
}

#[test]
fn game_phase_bounds() {
    let start = read_squares(&board_from_fen("rnbqkbnr/pppppppp/8/8/8/8/PPPPPPPP/RNBQKBNR w KQkq - 0 1").unwrap());
    assert_eq!(PstEval::game_phase(&start), 0);
    let bare = read_squares(&board_from_fen("4k3/8/8/8/8/8/8/4K3 w - - 0 1").unwrap());
    assert_eq!(PstEval::game_phase(&bare), 256);
    let rooks = read_squares(&board_from_fen("r3k3/8/8/8/8/8/8/R3K3 w - - 0 1").unwrap());
    assert_eq!(PstEval::game_phase(&rooks), (20 * 256 + 12) / 24);
}

#[test]
fn third_repetition_scores_zero() {
    let mut state = GameState::from_fen("4k3/8/8/8/8/8/8/Q3K3 w - - 0 1").unwrap();
    assert_eq!(CountMaterial::score(&state), 900);
    let cycle = [(4u8, 3u8), (60u8, 59u8), (3u8, 4u8), (59u8, 60u8)];
    let mut last = 0;
    for _ in 0..2 {
        for (from, to) in cycle.iter() {
            last = state.make_move(Move { from: *from, to: *to, promotion: None });
        }
    }
    assert_eq!(last, 3);
    assert_eq!(state.repetition_count(), 3);
    assert_eq!(CountMaterial::score(&state), 0);
    assert_eq!(PstEval::new().score(&state), 0);
}
