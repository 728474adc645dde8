//! The match engine end to end: state creation, move validation, placement,
//! scoring, player switching, and game-over detection.

use filler::ai::{AIDifficulty, create_ai};
use filler::engine::{Cell, GameState};
use filler::piece::{Piece, PieceGenerator};

#[test]
fn test_game_state_creation() {
    let game = GameState::new(10, 15);
    assert_eq!(game.width, 10);
    assert_eq!(game.height, 15);
    assert_eq!(game.current_player, 1);
    assert_eq!(game.turn, 1);
    assert!(!game.game_over);

    assert_eq!(game.board[0][0], Cell::Player1Old);
    assert_eq!(game.board[14][9], Cell::Player2Old);
}

#[test]
fn test_piece_generation() {
    let mut generator = PieceGenerator::new(42);
    let piece = generator.next();
    assert!(!piece.shape.is_empty());
    assert!(piece.width > 0);
    assert!(piece.height > 0);
}

#[test]
fn test_valid_move_detection() {
    let game = GameState::new(5, 5);
    let piece = Piece::new(vec![(0, 0), (1, 0)]);

    assert!(game.is_valid_move(&piece, 0, 0));

    assert!(!game.is_valid_move(&piece, 2, 2));

    assert!(!game.is_valid_move(&piece, 4, 0));
}

#[test]
fn test_ai_move_selection() {
    let game = GameState::new(10, 15);
    let piece = Piece::new(vec![(0, 0)]);
    let mut ai = create_ai(AIDifficulty::Easy);

    let move_result = ai.choose_move(&game, &piece);
    assert!(move_result.is_some());

    if let Some((x, y)) = move_result {
        assert!(game.is_valid_move(&piece, x, y));
    }
}

#[test]
fn test_score_calculation() {
    let game = GameState::new(5, 5);
    let (p1_score, p2_score) = game.calculate_scores();

    assert_eq!(p1_score, 1);
    assert_eq!(p2_score, 1);
}

#[test]
fn test_piece_placement() {
    let mut game = GameState::new(5, 5);
    let piece = Piece::new(vec![(0, 0), (1, 0)]);

    let initial_scores = game.calculate_scores();
    assert!(game.place_piece(&piece, 0, 0));
    let new_scores = game.calculate_scores();

    assert_eq!(new_scores.0, initial_scores.0 + 1);
}

#[test]
fn test_game_over_detection() {
    let mut game = GameState::new(3, 3);
    let piece = Piece::new(vec![(0, 0), (1, 0), (2, 0), (0, 1), (1, 1), (2, 1)]);

    let is_over = game.check_game_over(&piece);
    if is_over {
        assert!(game.game_over);
    }
}

#[test]
fn test_game_initialization() {
    let game = GameState::new(10, 8);
    assert_eq!(game.width, 10);
    assert_eq!(game.height, 8);
    assert_eq!(game.current_player, 1);
    assert_eq!(game.board[0][0], Cell::Player1Old);
    assert_eq!(game.board[7][9], Cell::Player2Old);
}

#[test]
fn test_piece_creation() {
    let shape = vec![(0, 0), (1, 0), (0, 1)];
    let piece = Piece::new(shape.clone());
    assert_eq!(piece.shape, shape);
    assert_eq!(piece.width, 2);
    assert_eq!(piece.height, 2);
}

#[test]
fn test_valid_move_detection_2() {
    let game = GameState::new(5, 5);
    let piece = Piece::new(vec![(0, 0), (1, 0)]);

    assert!(game.is_valid_move(&piece, 0, 0));

    assert!(!game.is_valid_move(&piece, 2, 2));

    assert!(!game.is_valid_move(&piece, 4, 4));
}

#[test]
fn test_piece_placement_2() {
    let mut game = GameState::new(5, 5);
    let piece = Piece::new(vec![(0, 0), (1, 0)]);

    assert!(game.place_piece(&piece, 0, 0));
    assert_eq!(game.board[0][0], Cell::Player1New);
    assert_eq!(game.board[0][1], Cell::Player1New);
}

#[test]
fn test_score_calculation_2() {
    let mut game = GameState::new(5, 5);
    let piece = Piece::new(vec![(0, 0), (1, 0)]);

    game.place_piece(&piece, 0, 0);
    let (p1_score, p2_score) = game.calculate_scores();

    assert_eq!(p1_score, 2);
    assert_eq!(p2_score, 1);
}

#[test]
fn test_player_switching() {
    let mut game = GameState::new(5, 5);
    assert_eq!(game.current_player, 1);

    game.switch_player();
    assert_eq!(game.current_player, 2);

    game.switch_player();
    assert_eq!(game.current_player, 1);
}

#[test]
fn test_overlap_validation() {
    let mut game = GameState::new(5, 5);
    let piece = Piece::new(vec![(0, 0), (1, 0), (0, 1)]);

    game.place_piece(&piece, 0, 0);
    game.switch_player();

    let piece2 = Piece::new(vec![(0, 0)]);
    assert!(!game.is_valid_move(&piece2, 0, 0));
    assert!(!game.is_valid_move(&piece2, 1, 0));
}

#[test]
fn test_ai_move_selection_2() {
    let mut ai = create_ai(AIDifficulty::Easy);
    let game = GameState::new(10, 10);
    let piece = Piece::new(vec![(0, 0)]);

    let move_result = ai.choose_move(&game, &piece);
    assert!(move_result.is_some());

    let (x, y) = move_result.unwrap();
    assert!(game.is_valid_move(&piece, x, y));
}

#[test]
fn test_piece_generator_2() {
    let mut generator = PieceGenerator::new(42);
    let piece1 = generator.next();
    let piece2 = generator.next();

    assert!(!piece1.shape.is_empty());
    assert!(!piece2.shape.is_empty());
}

#[test]
fn test_game_over_detection_2() {
    let mut game = GameState::new(3, 3);
    for y in 0..3 {
        for x in 0..3 {
            if (x, y) != (0, 0) && (x, y) != (2, 2) {
                game.board[y][x] = Cell::Player1Old;
            }
        }
    }

    let piece = Piece::new(vec![(0, 0), (1, 0), (2, 0)]);
    assert!(game.check_game_over(&piece));
}

#[test]
fn test_coordinate_format() {
    let game = GameState::new(10, 10);
    let piece = Piece::new(vec![(0, 0)]);

    assert!(game.is_valid_move(&piece, 0, 0));

    assert!(!game.is_valid_move(&piece, 10, 0));
    assert!(!game.is_valid_move(&piece, 0, 10));
}

#[test]
fn test_minimax_ai() {
    let mut ai = create_ai(AIDifficulty::Hard);
    let game = GameState::new(10, 10);
    let piece = Piece::new(vec![(0, 0), (1, 0)]);

    let move_result = ai.choose_move(&game, &piece);
    assert!(move_result.is_some());

    let (x, y) = move_result.unwrap();
    assert!(game.is_valid_move(&piece, x, y));
}

#[test]
fn test_from_board_constructor() {
    let board = vec![
        vec![Cell::Player1Old, Cell::Empty, Cell::Empty],
        vec![Cell::Empty, Cell::Empty, Cell::Empty],
        vec![Cell::Empty, Cell::Empty, Cell::Player2Old],
    ];

    let game = GameState::from_board(board);
    assert_eq!(game.width, 3);
    assert_eq!(game.height, 3);
    assert_eq!(game.board[0][0], Cell::Player1Old);
    assert_eq!(game.board[2][2], Cell::Player2Old);
}
