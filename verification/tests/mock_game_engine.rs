//! A mock of the engine side: it builds the text frames a player program
//! would receive, so the frame format can be checked without spawning
//! anything.

/// Builds test frames for a fixed two-anchor starting position.
pub struct MockGameEngine {
    pub map_size: (usize, usize),
    pub player1_pos: (usize, usize),
    pub player2_pos: (usize, usize),
}

impl MockGameEngine {
    pub fn new(map_size: (usize, usize)) -> Self {
        Self {
            map_size,
            player1_pos: (0, 0),
            player2_pos: (map_size.0 - 1, map_size.1 - 1),
        }
    }

    /// The full frame for one turn: announcement, board, and a 2 by 1 piece.
    pub fn generate_test_input(&self, player_id: u8, _turn: u32) -> String {
        let mut input = String::new();

        input.push_str(&format!("$$$ exec p{} : [test_player]\n", player_id));

        input.push_str(&format!("Anfield {} {}:\n", self.map_size.0, self.map_size.1));

        for y in 0..self.map_size.1 {
            input.push_str(&format!("{:03} ", y));
            for x in 0..self.map_size.0 {
                if (x, y) == self.player1_pos {
                    input.push('O');
                } else if (x, y) == self.player2_pos {
                    input.push('X');
                } else {
                    input.push('.');
                }
            }
            input.push('\n');
        }

        input.push_str("Piece 2 1:\n");
        input.push_str("OO\n");

        input
    }
}

#[test]
fn test_mock_engine_basic() {
    let engine = MockGameEngine::new((5, 5));
    let input = engine.generate_test_input(1, 1);
    assert!(input.contains("$$$ exec p1"));
    assert!(input.contains("Anfield 5 5"));
    assert!(input.contains("Piece 2 1"));
}

#[test]
fn test_mock_frame_parses_back() {
    let engine = MockGameEngine::new((5, 5));
    let input = engine.generate_test_input(1, 1);
    let lines: Vec<String> = input.lines().map(|l| l.to_string()).collect();

    assert_eq!(filler::game::parser::GameParser::parse_player_info(&lines[0]), Some(1));
    let board_lines: Vec<String> = lines[1..7].to_vec();
    let anfield = filler::game::parser::GameParser::parse_anfield(&board_lines).unwrap();
    assert_eq!(anfield.width, 5);
    assert_eq!(anfield.height, 5);

    let piece_lines: Vec<String> = lines[7..].to_vec();
    let piece = filler::game::parser::GameParser::parse_piece(&piece_lines).unwrap();
    assert_eq!(piece.width, 2);
    assert_eq!(piece.height, 1);
    assert!(piece.has_cell_at(0, 0));
    assert!(piece.has_cell_at(1, 0));
}
