use cheese_engine::board::{board_from_fen, fen_places_both_kings, file_of, legal_moves, rank_of, square_at, Move};
use cheese_engine::state::GameState;

fn mv(from: u8, to: u8) -> Move {
    Move { from, to, promotion: None }
}

#[test]
fn knight_shuffle_repeats_the_start_three_times() {
    let mut state = GameState::start().unwrap();
    let shuffle = [mv(6, 21), mv(62, 45), mv(21, 6), mv(45, 62)];
    let mut counts = Vec::new();
    for _ in 0..2 {
        for m in shuffle.iter() {
            counts.push(state.make_move(*m));
        }
    }
    assert_eq!(counts, vec![1, 1, 1, 2, 2, 2, 2, 3]);
    assert_eq!(state.ply(), 8);
}

#[test]
fn undo_restores_position_and_counts() {
    let mut state = GameState::start().unwrap();
    let start = state.last_board();
    assert_eq!(state.make_move(mv(6, 21)), 1);
    assert_eq!(state.make_move(mv(62, 45)), 1);
    state.undo_last_move();
    state.undo_last_move();
    assert_eq!(state.last_board(), start);
    assert_eq!(state.ply(), 0);
    // The start position occurs once again after playing out and back.
    state.make_move(mv(6, 21));
    state.make_move(mv(62, 45));
    state.make_move(mv(21, 6));
    assert_eq!(state.make_move(mv(45, 62)), 2);
}

#[test]
fn from_fen_counts_the_given_position_once() {
    let fen = "4k3/8/8/8/8/8/8/4K2R w K - 0 1";
    let mut state = GameState::from_fen(fen).unwrap();
    assert_eq!(state.last_board(), board_from_fen(fen).unwrap());
    assert_eq!(state.make_move(mv(4, 5)), 1);
    assert_eq!(state.make_move(mv(60, 59)), 1);
    assert_eq!(state.make_move(mv(5, 4)), 1);
    assert_eq!(state.make_move(mv(59, 60)), 1);
}

#[test]
fn invalid_fen_gives_no_state() {
    assert!(GameState::from_fen("not a position").is_none());
    assert!(GameState::from_fen("8/8/8/8/8/8/8/8 w - - 0 1").is_none());
    assert!(GameState::from_fen("4k3/8/8/8/8/8/8/8 w - - 0 1").is_none());
    assert!(GameState::from_fen("4k3/8/8/8/8/8/8/4K2 w - - 0 1").is_none());
    assert!(!fen_places_both_kings("4k3/8/8/8/8/8/8/4K4 w - - 0 1"));
    assert!(fen_places_both_kings("4k3/8/8/8/8/8/8/4K3 w - - 0 1"));
}

#[test]
fn stalemate_is_a_draw() {
    let state = GameState::from_fen("7k/5Q2/6K1/8/8/8/8/8 b - - 0 1").unwrap();
    assert!(state.is_draw());
    assert!(legal_moves(&state.last_board()).is_empty());
    let start = GameState::start().unwrap();
    assert!(!start.is_draw());
}

#[test]
fn duplicate_is_independent() {
    let mut state = GameState::start().unwrap();
    state.make_move(mv(12, 28));
    let mut copy = state.duplicate();
    copy.make_move(mv(52, 36));
    assert_eq!(state.ply(), 1);
    assert_eq!(copy.ply(), 2);
}

#[test]
fn square_coordinates() {
    assert_eq!(square_at(4, 3), 28);
    assert_eq!(file_of(28), 4);
    assert_eq!(rank_of(28), 3);
    assert_eq!(square_at(7, 7), 63);
}
