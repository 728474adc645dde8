//! Scenario tests for the stated game properties: enumeration against
//! validation, rejected placements changing nothing, score growth, generator
//! reproducibility, the degenerate minimax/greedy agreement, and the two
//! end-to-end board scenarios.

use filler::ai::{AIDifficulty, GreedyAI, MinimaxAI, create_ai};
use filler::player::AIPlayerWrapper;
use filler::engine::{Cell, GameState};
use filler::piece::{Piece, PieceGenerator};

#[test]
fn enumeration_matches_validation() {
    let game = GameState::new(5, 5);
    let piece = Piece::new(vec![(0, 0), (1, 0)]);
    let moves = game.get_valid_moves(&piece);
    for &(x, y) in &moves {
        assert!(game.is_valid_move(&piece, x, y));
    }
    for y in 0..5 {
        for x in 0..5 {
            assert_eq!(game.is_valid_move(&piece, x, y), moves.contains(&(x, y)));
        }
    }
}

#[test]
fn rejected_placement_changes_nothing() {
    let mut game = GameState::new(5, 5);
    let piece = Piece::new(vec![(0, 0), (1, 0)]);
    let moves = game.get_valid_moves(&piece);
    assert!(!moves.contains(&(2, 2)));
    let before = game.calculate_scores();
    let board_before = game.board.clone();
    assert!(!game.place_piece(&piece, 2, 2));
    assert_eq!(game.calculate_scores(), before);
    assert_eq!(game.board, board_before);
}

#[test]
fn accepted_placement_grows_score_by_cells_minus_one() {
    let mut game = GameState::new(7, 7);
    let piece = Piece::new(vec![(0, 0), (1, 0), (0, 1), (1, 1)]);
    let (p1_before, p2_before) = game.calculate_scores();
    assert!(game.place_piece(&piece, 0, 0));
    let (p1_after, p2_after) = game.calculate_scores();
    assert_eq!(p1_after, p1_before + 4 - 1);
    assert_eq!(p2_after, p2_before);
}

#[test]
fn generator_same_seed_same_sequence() {
    let mut a = PieceGenerator::new(987654321);
    let mut b = PieceGenerator::new(987654321);
    for _ in 0..100 {
        let pa = a.next();
        let pb = b.next();
        assert_eq!(pa.shape, pb.shape);
        assert_eq!(pa.width, pb.width);
        assert_eq!(pa.height, pb.height);
    }
}

#[test]
fn generator_different_seeds_diverge() {
    let mut a = PieceGenerator::new(1);
    let mut b = PieceGenerator::new(2);
    let mut all_same = true;
    for _ in 0..100 {
        if a.next().shape != b.next().shape {
            all_same = false;
        }
    }
    assert!(!all_same);
}

#[test]
fn minimax_agrees_with_greedy_on_single_candidate() {
    // A 3 by 3 board whose only legal anchor for this piece is (0, 0).
    let game = GameState::new(3, 3);
    let piece = Piece::new(vec![(0, 0), (1, 0)]);
    let moves = game.get_valid_moves(&piece);
    assert_eq!(moves, vec![(0, 0)]);

    let mut minimax = MinimaxAI::new(1);
    let mut greedy = GreedyAI::new();
    let mm = minimax.choose_move(&game, &piece);
    let gm = greedy.choose_move(&game, &piece);
    assert_eq!(mm, gm);
    assert_eq!(mm, Some((0, 0)));
}

#[test]
fn five_by_five_scenario() {
    // 5 by 5 board, anchors at (0,0) and (4,4); a two-cell horizontal piece;
    // player 1 to move.
    let mut game = GameState::new(5, 5);
    let piece = Piece::new(vec![(0, 0), (1, 0)]);

    let moves = game.get_valid_moves(&piece);
    assert!(moves.contains(&(0, 0)));
    assert!(!moves.contains(&(3, 3)));

    let (p1_before, _) = game.calculate_scores();
    assert_eq!(p1_before, 1);
    assert!(game.place_piece(&piece, 0, 0));
    assert_eq!(game.board[0][0], Cell::Player1New);
    assert_eq!(game.board[0][1], Cell::Player1New);
    let (p1_after, _) = game.calculate_scores();
    assert_eq!(p1_after, 2);
}

#[test]
fn game_over_scenario() {
    // A 3 by 3 board fully owned by player 1 except one empty cell and the
    // opponent anchor; a piece larger than the gap ends the game with player
    // 1 the winner.
    let mut game = GameState::new(3, 3);
    for y in 0..3 {
        for x in 0..3 {
            game.board[y][x] = Cell::Player1Old;
        }
    }
    game.board[2][2] = Cell::Player2Old;
    game.board[1][2] = Cell::Empty;

    let piece = Piece::new(vec![(0, 0), (1, 0), (0, 1)]);
    assert!(game.get_valid_moves(&piece).is_empty());
    assert!(game.check_game_over(&piece));
    assert!(game.game_over);
    assert_eq!(game.winner, Some(1));
}

#[test]
fn settling_happens_before_placing() {
    let mut game = GameState::new(5, 5);
    let piece = Piece::new(vec![(0, 0), (1, 0)]);
    assert!(game.place_piece(&piece, 0, 0));
    assert_eq!(game.board[0][0], Cell::Player1New);
    // The player's next accepted placement settles the earlier one first.
    let piece2 = Piece::new(vec![(0, 0), (0, 1)]);
    assert!(game.place_piece(&piece2, 1, 0));
    assert_eq!(game.board[0][0], Cell::Player1Old);
    assert_eq!(game.board[0][1], Cell::Player1New);
    assert_eq!(game.board[1][1], Cell::Player1New);
}

#[test]
fn opponent_fresh_cells_stay_fresh() {
    let mut game = GameState::new(5, 5);
    let piece = Piece::new(vec![(0, 0), (1, 0)]);
    assert!(game.place_piece(&piece, 0, 0));
    game.switch_player();
    assert!(game.place_piece(&piece, 3, 4));
    // Player 2's placement settles only player 2's cells.
    assert_eq!(game.board[0][0], Cell::Player1New);
    assert_eq!(game.board[0][1], Cell::Player1New);
    assert_eq!(game.board[4][3], Cell::Player2New);
    game.switch_player();
    assert!(game.place_piece(&piece, 1, 0));
    // Player 1's own next placement settles them; player 2's stay fresh.
    assert_eq!(game.board[0][0], Cell::Player1Old);
    assert_eq!(game.board[4][3], Cell::Player2New);
}

#[test]
fn tie_leaves_no_winner() {
    let mut game = GameState::new(2, 1);
    // One cell each: a piece that fits nowhere ends the match as a tie.
    let piece = Piece::new(vec![(0, 0), (1, 0), (2, 0)]);
    assert!(game.check_game_over(&piece));
    assert!(game.game_over);
    assert_eq!(game.winner, None);
}

#[test]
fn generator_draws_catalog_shapes() {
    let mut g = PieceGenerator::new(7);
    for _ in 0..50 {
        let p = g.next();
        assert!(!p.shape.is_empty());
        assert!(p.shape.len() <= 6);
        assert!(p.width <= 4);
        assert!(p.height <= 4);
    }
}

#[test]
fn greedy_prefers_the_center() {
    let mut game = GameState::new(5, 5);
    game.board[2][2] = Cell::Player1Old;
    let piece = Piece::new(vec![(0, 0)]);

    // Two candidates: the corner anchor scores 10 - 4, the centre scores 10.
    let moves = game.get_valid_moves(&piece);
    assert_eq!(moves, vec![(0, 0), (2, 2)]);
    let mut greedy = GreedyAI::new();
    assert_eq!(greedy.choose_move(&game, &piece), Some((2, 2)));
}

#[test]
fn ai_wrapper_takes_a_seat() {
    let game = GameState::new(8, 8);
    let piece = Piece::new(vec![(0, 0), (0, 1)]);
    let mut seat = AIPlayerWrapper::new(create_ai(AIDifficulty::Medium));
    assert!(!seat.is_human());
    let mv = seat.get_move(&game, &piece);
    assert_eq!(mv, Some((0, 0)));
    assert!(game.is_valid_move(&piece, 0, 0));
}

#[test]
fn engine_names() {
    assert_eq!(create_ai(AIDifficulty::Easy).get_name(), "Random AI");
    assert_eq!(create_ai(AIDifficulty::Medium).get_name(), "Greedy AI");
    assert_eq!(create_ai(AIDifficulty::Hard).get_name(), "Minimax AI (depth 3)");
    assert_eq!(create_ai(AIDifficulty::Expert).get_name(), "Minimax AI (depth 5)");
}

#[test]
fn random_piece_is_from_catalog() {
    for _ in 0..20 {
        let p = Piece::generate_random();
        assert!(!p.shape.is_empty());
        assert!(p.shape.len() <= 6);
    }
}
