//! The wire format both ways, the board model queries, the player record,
//! and the protocol-side AI.

use filler::ai::{FillterAI, Evaluator, Strategy};
use filler::engine::GameState;
use filler::game::anfield::{Anfield, Cell};
use filler::game::parser::GameParser;
use filler::game::piece::Piece as MaskPiece;
use filler::game::player::Player;
use filler::player::HumanPlayer;
use filler::protocol;
use filler::utils::GameConfig;
use filler::visualizer::{GameReplay, GameVisualizer};

#[test]
fn cell_characters_round_trip() {
    for c in [Cell::Empty, Cell::Player1Old, Cell::Player1New, Cell::Player2Old, Cell::Player2New]
    {
        assert_eq!(Cell::from_char(c.to_char()), c);
    }
    assert_eq!(Cell::from_char('?'), Cell::Empty);
    assert_eq!(Cell::from_char('@'), Cell::Player1Old);
    assert_eq!(Cell::from_char('s'), Cell::Player2New);
}

#[test]
fn parser_rejects_malformed_lines() {
    assert_eq!(GameParser::parse_player_info("$$$ exec q1 : [x]"), None);
    assert_eq!(GameParser::parse_player_info("$$$ exec p"), None);
    assert_eq!(GameParser::parse_player_info("$$$ exec px : [x]"), None);
    assert_eq!(GameParser::parse_anfield_header("Anfield 20:"), None);
    assert_eq!(GameParser::parse_anfield_header("Board 20 15:"), None);
    assert_eq!(GameParser::parse_anfield_header("Anfield x 15:"), None);
    assert_eq!(
        GameParser::parse_anfield_header("Anfield 99999999999999999999999999 15:"),
        None
    );
    assert_eq!(GameParser::parse_piece_header("Piece"), None);
}

#[test]
fn parser_reads_header_variants() {
    assert_eq!(GameParser::parse_anfield_header("Anfield 20 15:"), Some((20, 15)));
    assert_eq!(GameParser::parse_anfield_header("Anfield  20  15"), Some((20, 15)));
    assert_eq!(GameParser::parse_piece_header("Piece 4 1:"), Some((4, 1)));
    assert_eq!(GameParser::parse_player_info("$$$ exec p2 : [robots/bender]"), Some(2));
}

#[test]
fn parser_reads_rows() {
    let cells = GameParser::parse_anfield_row("000 .@a$s");
    assert_eq!(
        cells,
        vec![Cell::Empty, Cell::Player1Old, Cell::Player1New, Cell::Player2Old, Cell::Player2New]
    );
    let bare = GameParser::parse_anfield_row(".@.");
    assert_eq!(bare, vec![Cell::Empty, Cell::Player1Old, Cell::Empty]);
}

#[test]
fn parser_reads_whole_board() {
    let lines: Vec<String> = vec![
        "Anfield 3 2:".to_string(),
        "000 .@.".to_string(),
        "001 ..$".to_string(),
    ];
    let a = GameParser::parse_anfield(&lines).unwrap();
    assert_eq!((a.width, a.height), (3, 2));
    assert_eq!(a.get_cell(1, 0), Some(Cell::Player1Old));
    assert_eq!(a.get_cell(2, 1), Some(Cell::Player2Old));
    assert_eq!(a.get_cell(0, 0), Some(Cell::Empty));
    assert_eq!(a.get_cell(3, 0), None);
}

#[test]
fn parser_accepts_large_boards() {
    let lines: Vec<String> = vec!["Anfield 1001 1000:".to_string()];
    let a = GameParser::parse_anfield(&lines).unwrap();
    assert_eq!((a.width, a.height), (1001, 1000));
    assert_eq!(a.get_cell(1000, 999), Some(Cell::Empty));
}

#[test]
fn parser_rejects_short_piece() {
    let lines: Vec<String> = vec!["Piece 2 2:".to_string(), "OO".to_string()];
    assert_eq!(GameParser::parse_piece(&lines).map(|p| p.height), None);
}

#[test]
fn frame_format_is_exact() {
    let game = GameState::new(3, 2);
    let text = protocol::format_anfield(&game);
    assert_eq!(text, "Anfield 3 2:\n000 @..\n001 ..$\n");

    let piece = filler::piece::Piece::new(vec![(0, 0), (1, 0), (1, 1)]);
    let ptext = protocol::format_piece(&piece);
    assert_eq!(ptext, "Piece 2 2:\n**\n.*\n");

    let exec_line = protocol::format_exec_line(1, "robots/test");
    assert_eq!(exec_line, "$$$ exec p1 : [robots/test]\n");
}

#[test]
fn move_reply_round_trip() {
    assert_eq!(protocol::format_move(7, 12), "7 12\n");
    assert_eq!(protocol::parse_move_reply("7 12\n"), Some((7, 12)));
    assert_eq!(protocol::parse_move_reply("  3  4  "), Some((3, 4)));
    assert_eq!(protocol::parse_move_reply("3"), None);
    assert_eq!(protocol::parse_move_reply("x y"), None);
    assert_eq!(protocol::parse_move_reply(""), None);
}

#[test]
fn anfield_queries() {
    let mut a = Anfield::new(4, 3);
    assert!(a.is_valid_position(3, 2));
    assert!(!a.is_valid_position(4, 0));
    assert!(a.set_cell(1, 1, Cell::Player1New));
    assert!(!a.set_cell(9, 9, Cell::Player1New));
    assert_eq!(a.count_player_cells(1), 1);
    assert_eq!(a.count_player_cells(2), 0);
    assert_eq!(a.get_player_territory(1), vec![(1, 1)]);

    a.update_old_pieces(1);
    assert_eq!(a.get_cell(1, 1), Some(Cell::Player1Old));
    a.set_cell(2, 2, Cell::Player2New);
    a.update_old_pieces(1);
    assert_eq!(a.get_cell(2, 2), Some(Cell::Player2New));
    a.update_old_pieces(2);
    assert_eq!(a.get_cell(2, 2), Some(Cell::Player2Old));
}

#[test]
fn territory_order_is_row_major() {
    let mut a = Anfield::new(3, 3);
    a.set_cell(2, 0, Cell::Player1Old);
    a.set_cell(0, 1, Cell::Player1New);
    a.set_cell(1, 2, Cell::Player1Old);
    assert_eq!(a.get_player_territory(1), vec![(2, 0), (0, 1), (1, 2)]);
}

#[test]
fn player_record_deduplicates() {
    let mut p = Player::new(1);
    p.add_territory(vec![(0, 0), (1, 0), (0, 0)]);
    assert_eq!(p.score, 2);
    assert_eq!(p.get_territory_cells(), &vec![(0, 0), (1, 0)]);
    assert!(p.has_territory_at(1, 0));
    assert!(!p.has_territory_at(2, 0));
    assert!(p.is_adjacent_to_territory(2, 0));
    assert!(!p.is_adjacent_to_territory(2, 2));
    p.clear_territory();
    assert_eq!(p.score, 0);
    assert!(!p.has_territory_at(0, 0));
}

#[test]
fn mask_piece_queries() {
    let piece = MaskPiece::from_pattern(vec!["O.".to_string(), "OO".to_string()]);
    assert_eq!((piece.width, piece.height), (2, 2));
    assert!(piece.has_cell_at(0, 0));
    assert!(!piece.has_cell_at(1, 0));
    assert_eq!(piece.count_cells(), 3);
    assert_eq!(piece.get_piece_cells(), vec![(0, 0), (0, 1), (1, 1)]);
    assert_eq!(piece.get_absolute_cells(2, 3), vec![(2, 3), (2, 4), (3, 4)]);
}

#[test]
fn nested_place_piece_applies_canonical_rule() {
    let mut gs = filler::game::GameState::new(4, 4);
    gs.anfield.set_cell(0, 0, Cell::Player1Old);
    gs.anfield.set_cell(3, 3, Cell::Player2Old);
    gs.update_scores();
    gs.current_piece = Some(MaskPiece::from_pattern(vec!["OO".to_string()]));

    assert!(!gs.place_piece(2, 2), "no overlap with own territory");
    assert!(gs.place_piece(0, 0));
    assert_eq!(gs.anfield.get_cell(0, 0), Some(Cell::Player1New));
    assert_eq!(gs.anfield.get_cell(1, 0), Some(Cell::Player1New));
    assert_eq!(gs.player1.score, 2);
    assert_eq!(gs.player2.score, 1);
    assert_eq!(gs.get_current_player().id, 1);
    assert_eq!(gs.get_opponent().id, 2);
    gs.switch_player();
    assert_eq!(gs.current_player, 2);
    assert_eq!(gs.turn, 1);
}

#[test]
fn evaluator_scores_are_exact() {
    let mut a = Anfield::new(5, 5);
    a.set_cell(0, 0, Cell::Player1Old);
    a.set_cell(4, 4, Cell::Player2Old);
    let piece = MaskPiece::from_pattern(vec!["O".to_string()]);
    let e = Evaluator;
    // A single cell at (0, 0): two empty neighbours, no opponent nearby.
    assert_eq!(e.evaluate_expansion_potential(&a, &piece, 0, 0), 2);
    let opp = Player::new(2);
    assert_eq!(e.evaluate_blocking_potential(&a, &piece, 0, 0, &opp), 0);
    assert_eq!(e.evaluate_connectivity(&a, &piece, 3, 4, 2), 1);
    assert_eq!(e.calculate_territory_score(&a, 1), 1);
    // 10 (one cell) + 5*2 (empty neighbours) + 0 (blocking) - 4 (distance).
    let p1 = Player::new(1);
    assert_eq!(e.evaluate_position(&a, &piece, 0, 0, &p1, &opp), 16);
}

#[test]
fn strategy_validates_and_picks() {
    let mut a = Anfield::new(5, 5);
    a.set_cell(0, 0, Cell::Player1Old);
    a.set_cell(4, 4, Cell::Player2Old);
    let piece = MaskPiece::from_pattern(vec!["OO".to_string()]);
    let s = Strategy::new();
    let p1 = Player::new(1);
    let p2 = Player::new(2);
    assert!(s.validate_move(&a, &piece, 0, 0, &p1, &p2));
    assert!(!s.validate_move(&a, &piece, 1, 1, &p1, &p2));
    assert_eq!(s.find_valid_positions(&a, &piece, 1), vec![(0, 0)]);
}

#[test]
fn filler_ai_replies_with_move_or_zero() {
    let mut a = Anfield::new(5, 5);
    a.set_cell(0, 0, Cell::Player1Old);
    a.set_cell(4, 4, Cell::Player2Old);
    let piece = MaskPiece::from_pattern(vec!["OO".to_string()]);
    let ai = FillterAI::new();
    assert_eq!(ai.make_move(a, piece), (0, 0));

    // No legal placement at all: the reply is the "no move" pair.
    let blocked = Anfield::new(2, 1);
    let big = MaskPiece::from_pattern(vec!["OOO".to_string()]);
    let ai2 = FillterAI { player_id: Some(2), strategy: Strategy::new() };
    assert_eq!(ai2.make_move(blocked, big), (0, 0));
}

#[test]
fn human_helpers() {
    let h = HumanPlayer::new("Ada".to_string());
    assert_eq!(h.get_name(), "Ada");
    assert_eq!(h.parse_coordinates("5 3"), Some((3, 5)));
    assert_eq!(h.parse_coordinates("5"), None);
    assert_eq!(h.parse_coordinates("5 3 1"), None);
    assert_eq!(h.parse_coordinates("a b"), None);

    let game = GameState::new(10, 10);
    let piece = filler::piece::Piece::new(vec![(0, 0), (1, 0)]);
    // 20 points for two cells, minus 10 for the distance from (0,0) to (5,5).
    assert_eq!(h.evaluate_move_simple(&game, &piece, 0, 0), 10);
}

#[test]
fn config_and_replay_defaults() {
    let config = GameConfig::default();
    assert_eq!(config.board_width, 15);
    assert_eq!(config.board_height, 10);
    assert!(matches!(config.mode, filler::utils::GameMode::HumanVsAI));

    let vis = GameVisualizer::new();
    assert!(vis.show_animations);
    assert_eq!(vis.animation_delay_ms, 500);
    let quiet = GameVisualizer::with_settings(false, 100, false);
    assert!(!quiet.show_animations);

    let mut replay = GameReplay::new();
    let game = GameState::new(5, 5);
    replay.add_move(1, filler::piece::Piece::new(vec![(0, 0)]), Some((0, 0)), game);
    assert_eq!(replay.moves.len(), 1);
    assert_eq!(replay.moves[0].player, 1);
    assert_eq!(replay.moves[0].position, Some((0, 0)));
}

#[test]
fn display_board_renders() {
    let game = GameState::new(3, 2);
    let text = game.display_board();
    assert!(text.contains('@'));
    assert!(text.contains('$'));
}
