//! Seats at the table: a human player's pure helpers (the interactive loop
//! itself lives outside the library), and a wrapper that lets an AI engine
//! take a seat.

use vstd::prelude::*;
use crate::ai::AiEngine;
use crate::engine::{GameState, MAX_CELLS};
use crate::piece::Piece;
use crate::rules::legal_positions;
use crate::game::parser::{skip_spaces, token_end, spec_parse_usize};

verus! {

/// What a typed move line parses to: exactly two whitespace-separated
/// numbers, read as `row column` and returned as `(x, y)`.
pub open spec fn spec_parse_coordinates(s: Seq<char>) -> Option<(usize, usize)> {
    let t1s = skip_spaces(s, 0);
    let t1e = token_end(s, t1s);
    let t2s = skip_spaces(s, t1e);
    let t2e = token_end(s, t2s);
    if t1e > t1s && t2e > t2s && skip_spaces(s, t2e) == s.len() {
        match (spec_parse_usize(s.subrange(t1s, t1e)), spec_parse_usize(s.subrange(t2s, t2e))) {
            (Some(row), Some(col)) => Some((col, row)),
            _ => None,
        }
    } else {
        None
    }
}

/// A seat taken by a person: the library holds the pure helpers, and the
/// interactive prompt loop drives them from outside.
pub struct HumanPlayer {
    name: String,
}

impl HumanPlayer {
    pub fn new(name: String) -> HumanPlayer {
        HumanPlayer { name }
    }

    pub fn get_name(&self) -> &str {
        self.name.as_str()
    }

    /// The hint heuristic: ten points per piece cell, minus the anchor's
    /// distance to the board centre.
    pub fn evaluate_move_simple(&self, game: &GameState, piece: &Piece, x: usize, y: usize) -> (r:
        i32)
        requires
            game.wf(),
            piece.shape@.len() <= MAX_CELLS,
            x < game.width,
            y < game.height,
        ensures
            r as int == 10 * piece.shape@.len() - crate::ai::center_distance(
                game.width as int,
                game.height as int,
                x as int,
                y as int,
            ),
    {
        proof {
            assert(game.width <= MAX_CELLS && game.height <= MAX_CELLS) by (nonlinear_arith)
                requires
                    game.width * game.height <= MAX_CELLS,
                    x < game.width,
                    y < game.height,
                    x >= 0,
                    y >= 0,
            ;
        }
        let center_x = game.width / 2;
        let center_y = game.height / 2;
        let xd: i64 = if x >= center_x {
            (x - center_x) as i64
        } else {
            (center_x - x) as i64
        };
        let yd: i64 = if y >= center_y {
            (y - center_y) as i64
        } else {
            (center_y - y) as i64
        };
        let score: i64 = 10 * (piece.shape.len() as i64) - (xd + yd);
        score as i32
    }

    /// Reads a typed `row column` reply, converting it to an `(x, y)` pair.
    pub fn parse_coordinates(&self, input: &str) -> (r: Option<(usize, usize)>)
        ensures
            r == spec_parse_coordinates(input@),
    {
        let n = input.unicode_len();
        let t1s = crate::game::parser::skip_spaces_at(input, 0, n);
        let t1e = crate::game::parser::token_end_at(input, t1s, n);
        let t2s = crate::game::parser::skip_spaces_at(input, t1e, n);
        let t2e = crate::game::parser::token_end_at(input, t2s, n);
        if !(t1e > t1s && t2e > t2s) {
            return None;
        }
        if crate::game::parser::skip_spaces_at(input, t2e, n) != n {
            return None;
        }
        let row = crate::game::parser::parse_usize_in(input, t1s, t1e);
        let col = crate::game::parser::parse_usize_in(input, t2s, t2e);
        match (row, col) {
            (Some(row), Some(col)) => Some((col, row)),
            _ => None,
        }
    }
}

/// A seat taken by one of the decision engines.
pub struct AIPlayerWrapper {
    ai: AiEngine,
}

impl AIPlayerWrapper {
    /// Which engine sits here.
    pub closed spec fn engine(self) -> AiEngine {
        self.ai
    }

    pub fn new(ai: AiEngine) -> (r: AIPlayerWrapper)
        ensures
            r.engine() == ai,
    {
        AIPlayerWrapper { ai }
    }

    /// The wrapped engine's move: a legal position for the current player,
    /// or `None` exactly when no legal placement exists.
    pub fn get_move(&mut self, game: &GameState, piece: &Piece) -> (r: Option<(usize, usize)>)
        requires
            game.wf(),
            piece.shape@.len() <= MAX_CELLS,
            old(self).engine().ready(*game),
        ensures
            (r is Some) <==> legal_positions(
                game.grid(),
                game.width as int,
                game.height as int,
                piece.shape@,
                game.current_player,
            ).len() > 0,
            r matches Some(m) ==> legal_positions(
                game.grid(),
                game.width as int,
                game.height as int,
                piece.shape@,
                game.current_player,
            ).contains(m),
    {
        self.ai.choose_move(game, piece)
    }

    pub fn get_name(&self) -> (r: &str)
        ensures
            r@ == self.engine().spec_name(),
    {
        self.ai.get_name()
    }

    pub fn is_human(&self) -> (r: bool)
        ensures
            !r,
    {
        false
    }
}

} // verus!
