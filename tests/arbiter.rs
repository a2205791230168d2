use cheese_engine::arbiter::{decimal_string, move_to_san, play_match, GameResult, Pgn};
use cheese_engine::board::{board_from_fen, Move};
use cheese_engine::engine::{AnyMove, SearchEngine, TimeInfo};
use cheese_engine::state::GameState;
use cheese_engine::evaluation::CountMaterial;

#[test]
fn test_play_from_startpos() {
    let mut white = AnyMove;
    let mut black = AnyMove;

    let result = play_match::<CountMaterial>(
        &mut white,
        &mut black,
        "rnbqkbnr/pppppppp/8/8/8/8/PPPPPPPP/RNBQKBNR w KQkq - 0 1",
        Some(10),
    );

    assert!(result.is_ok());
    let (game_result, _state, pgn) = result.unwrap();
    // With AnyMove engines, it should hit the move limit
    assert_eq!(game_result, GameResult::Draw);
    assert_eq!(pgn.moves.len(), 10);
    println!("PGN:\n{}", pgn.to_string());
}

#[test]
fn test_play_from_checkmate_position() {
    let mut white = AnyMove;
    let mut black = AnyMove;

    // Position where black is checkmated
    let result = play_match::<CountMaterial>(
        &mut white,
        &mut black,
        "rnb1kbnr/pppp1ppp/8/4p3/6Pq/5P2/PPPPP2P/RNBQKBNR w KQkq - 1 3",
        Some(100),
    );

    assert!(result.is_ok());
    let (game_result, _state, pgn) = result.unwrap();
    assert_eq!(game_result, GameResult::BlackWins);
    println!("PGN:\n{}", pgn.to_string());
}

#[test]
fn test_invalid_fen() {
    let mut white = AnyMove;
    let mut black = AnyMove;

    let result = play_match::<CountMaterial>(&mut white, &mut black, "invalid fen string", Some(100));

    assert!(result.is_err());
}

#[test]
fn test_pgn_display() {
    let mut pgn = Pgn::new(
        "rnbqkbnr/pppppppp/8/8/8/8/PPPPPPPP/RNBQKBNR w KQkq - 0 1".to_string(),
        vec!["e4".to_string(), "e5".to_string(), "Nf3".to_string(), "Nc6".to_string()],
        GameResult::Draw,
    );
    pgn.add_tag("Event".to_string(), "Test Game".to_string());
    pgn.add_tag("White".to_string(), "Engine1".to_string());
    pgn.add_tag("Black".to_string(), "Engine2".to_string());

    let pgn_str = pgn.to_string();
    assert!(pgn_str.contains("[Event \"Test Game\"]"));
    assert!(pgn_str.contains("1. e4 e5 2. Nf3 Nc6"));
    assert!(pgn_str.contains("1/2-1/2"));
}

#[test]
fn pgn_text_is_exact_for_the_starting_position() {
    let mut pgn = Pgn::new(
        "rnbqkbnr/pppppppp/8/8/8/8/PPPPPPPP/RNBQKBNR w KQkq - 0 1".to_string(),
        vec!["e4".to_string(), "e5".to_string(), "Nf3".to_string()],
        GameResult::WhiteWins,
    );
    pgn.add_tag("Event".to_string(), "Club".to_string());
    assert_eq!(pgn.to_string(), "[Event \"Club\"]\n[Result \"1-0\"]\n\n1. e4 e5 2. Nf3 1-0\n");
}

#[test]
fn pgn_records_a_custom_start_and_wraps_long_lines() {
    let fen = "4k3/8/8/8/8/8/8/4K3 w - - 0 1";
    let moves: Vec<String> = (0..40).map(|_| "Kd2".to_string()).collect();
    let pgn = Pgn::new(fen.to_string(), moves, GameResult::BlackWins);
    let text = pgn.to_string();
    assert!(text.starts_with(
        "[FEN \"4k3/8/8/8/8/8/8/4K3 w - - 0 1\"]\n[SetUp \"1\"]\n[Result \"0-1\"]\n\n1. Kd2 Kd2 2. Kd2"
    ));
    for line in text.lines() {
        assert!(line.len() <= 80);
    }
    assert!(text.contains(" 7. Kd2 Kd2 8.\nKd2 Kd2 9. Kd2"));
    assert!(text.ends_with("20. Kd2 Kd2 0-1\n"));
}

#[test]
fn game_result_tokens() {
    assert_eq!(GameResult::WhiteWins.to_string(), "1-0");
    assert_eq!(GameResult::BlackWins.to_string(), "0-1");
    assert_eq!(GameResult::Draw.to_string(), "1/2-1/2");
}

#[test]
fn decimal_numbers() {
    assert_eq!(decimal_string(0), "0");
    assert_eq!(decimal_string(7), "7");
    assert_eq!(decimal_string(1234), "1234");
}

fn mv(from: u8, to: u8) -> Move {
    Move { from, to, promotion: None }
}

#[test]
fn san_of_simple_moves() {
    let b = board_from_fen("rnbqkbnr/pppppppp/8/8/8/8/PPPPPPPP/RNBQKBNR w KQkq - 0 1").unwrap();
    assert_eq!(move_to_san(&b, mv(12, 28)), "e4");
    assert_eq!(move_to_san(&b, mv(6, 21)), "Nf3");
}

#[test]
fn san_disambiguates_by_file() {
    let b = board_from_fen("4k3/8/8/8/8/8/8/1N2KN2 w - - 0 1").unwrap();
    assert_eq!(move_to_san(&b, mv(1, 11)), "Nbd2");
    assert_eq!(move_to_san(&b, mv(5, 11)), "Nfd2");
    assert_eq!(move_to_san(&b, mv(1, 18)), "Nc3");
}

#[test]
fn san_marks_captures_and_mate() {
    let b = board_from_fen("r1bqkb1r/pppp1ppp/2n2n2/4p2Q/2B1P3/8/PPPP1PPP/RNB1K1NR w KQkq - 4 4")
        .unwrap();
    assert_eq!(move_to_san(&b, mv(39, 53)), "Qxf7#");
    let b = board_from_fen("4k3/8/8/3p4/4P3/8/8/4K3 w - - 0 1").unwrap();
    assert_eq!(move_to_san(&b, mv(28, 35)), "exd5");
}

#[test]
fn san_of_castling_and_check() {
    let b = board_from_fen("4k3/8/8/8/8/8/8/4K2R w K - 0 1").unwrap();
    assert_eq!(move_to_san(&b, mv(4, 6)), "O-O");
    assert_eq!(move_to_san(&b, mv(7, 63)), "Rh8+");
}

#[test]
fn kingless_fen_is_refused() {
    let mut white = AnyMove;
    let mut black = AnyMove;
    let result = play_match::<CountMaterial>(&mut white, &mut black, "8/8/8/8/8/8/8/8 w - - 0 1", Some(10));
    assert!(result.is_err());
}

/// Plays the knight shuffle g1f3 g8f6 f3g1 f6g8 over and over.
struct Shuffle;

impl SearchEngine<CountMaterial> for Shuffle {
    fn engine_wf(&self) -> bool {
        true
    }

    fn next_move(&mut self, state: GameState, _time_info: &Option<TimeInfo>) -> Option<Move> {
        let cycle = [mv(6, 21), mv(62, 45), mv(21, 6), mv(45, 62)];
        Some(cycle[state.ply() % 4])
    }

    fn clear_search_state(&mut self) {}
}

#[test]
fn threefold_repetition_ends_the_game_as_a_draw() {
    let mut white = Shuffle;
    let mut black = Shuffle;
    let (result, state, pgn) = play_match::<CountMaterial>(
        &mut white,
        &mut black,
        "rnbqkbnr/pppppppp/8/8/8/8/PPPPPPPP/RNBQKBNR w KQkq - 0 1",
        Some(100),
    )
    .unwrap();
    assert_eq!(result, GameResult::Draw);
    assert_eq!(pgn.moves.len(), 8);
    assert_eq!(state.ply(), 8);
}
