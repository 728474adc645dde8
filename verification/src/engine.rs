//! The match engine: the full state of a running match and the operations the
//! turn cycle needs — validate a placement, apply it, enumerate the legal
//! anchors, score the board, switch the active player, and detect the end of
//! the game.

use vstd::prelude::*;
use crate::piece::Piece;

pub use crate::rules::Cell;
pub use crate::rules::MAX_CELLS;

use crate::rules::{
    apply_to_grid, check_placement, count_owned_cells, fresh_cell, grid_count, grid_view, grid_wf,
    is_legal, legal_positions, legal_positions_upto, lemma_apply_score_change, opponent_of,
    place_on_grid, row_legal_positions, settle_board, settle_grid, shape_covers, shape_distinct,
    shape_in_bounds,
};

verus! {


/// The board with an anchor cell for each player in opposite corners.
pub open spec fn initial_grid(w: int, h: int) -> Seq<Seq<Cell>> {
    Seq::new(
        h as nat,
        |y: int|
            Seq::new(
                w as nat,
                |x: int|
                    if x == w - 1 && y == h - 1 {
                        Cell::Player2Old
                    } else if x == 0 && y == 0 {
                        Cell::Player1Old
                    } else {
                        Cell::Empty
                    },
            ),
    )
}

/// The winner once no legal placement is left: whoever owns strictly more
/// cells; equal counts are a tie.
pub open spec fn winner_of(g: Seq<Seq<Cell>>) -> Option<u8> {
    if grid_count(g, 1) > grid_count(g, 2) {
        Some(1u8)
    } else if grid_count(g, 2) > grid_count(g, 1) {
        Some(2u8)
    } else {
        None
    }
}

/// An independent copy of a board, row by row. Search code copies the match
/// state before simulating a placement on it.
pub(crate) fn copy_grid(b: &Vec<Vec<Cell>>) -> (r: Vec<Vec<Cell>>)
    ensures
        r@.len() == b@.len(),
        forall|y: int| 0 <= y < b@.len() ==> (#[trigger] r@[y])@ == b@[y]@,
{
    let mut out: Vec<Vec<Cell>> = Vec::new();
    let mut y: usize = 0;
    while y < b.len()
        invariant
            y <= b@.len(),
            out@.len() == y,
            forall|i: int| 0 <= i < y ==> (#[trigger] out@[i])@ == b@[i]@,
        decreases b@.len() - y,
    {
        let src = &b[y];
        let mut row: Vec<Cell> = Vec::new();
        let mut x: usize = 0;
        while x < src.len()
            invariant
                x <= src@.len(),
                row@ == src@.subrange(0, x as int),
            decreases src@.len() - x,
        {
            row.push(src[x]);
            proof {
                assert(row@ =~= src@.subrange(0, x + 1));
            }
            x += 1;
        }
        proof {
            assert(row@ =~= src@);
        }
        out.push(row);
        y += 1;
    }
    out
}

/// The state of a match: the board, whose turn it is, and whether (and how)
/// the game ended.
#[derive(Debug)]
pub struct GameState {
    pub board: Vec<Vec<Cell>>,
    pub width: usize,
    pub height: usize,
    pub current_player: u8,
    pub turn: u32,
    pub game_over: bool,
    pub winner: Option<u8>,
}

impl GameState {
    /// The board as a mathematical grid, indexed `[y][x]`.
    pub open spec fn grid(self) -> Seq<Seq<Cell>> {
        grid_view(self.board@)
    }

    /// A consistent match state: a rectangular, non-empty board of bounded
    /// area, and a current player that is 1 or 2.
    pub open spec fn wf(self) -> bool {
        &&& grid_wf(self.grid(), self.width as int, self.height as int)
        &&& 1 <= self.width
        &&& 1 <= self.height
        &&& self.width * self.height <= MAX_CELLS
        &&& (self.current_player == 1 || self.current_player == 2)
    }

    /// Legality of placing `piece` at `(x, y)` for the current player, as a
    /// predicate on this state.
    pub open spec fn spec_legal(self, sh: Seq<(usize, usize)>, x: int, y: int) -> bool {
        is_legal(
            self.grid(),
            self.width as int,
            self.height as int,
            sh,
            x,
            y,
            self.current_player,
        )
    }

    /// A fresh match on a `width` by `height` board: player 1 anchored at the
    /// top-left corner, player 2 at the bottom-right, player 1 to move.
    pub fn new(width: usize, height: usize) -> (r: GameState)
        requires
            1 <= width,
            1 <= height,
            width * height <= MAX_CELLS,
        ensures
            r.wf(),
            r.grid() == initial_grid(width as int, height as int),
            r.width == width,
            r.height == height,
            r.current_player == 1,
            r.turn == 1,
            !r.game_over,
            r.winner is None,
    {
        let mut board: Vec<Vec<Cell>> = Vec::new();
        let mut y: usize = 0;
        while y < height
            invariant
                y <= height,
                board@.len() == y,
                forall|i: int| 0 <= i < y ==> (#[trigger] board@[i])@.len() == width,
                forall|i: int, j: int|
                    0 <= i < y && 0 <= j < width ==> #[trigger] board@[i]@[j] == Cell::Empty,
            decreases height - y,
        {
            let mut row: Vec<Cell> = Vec::new();
            let mut x: usize = 0;
            while x < width
                invariant
                    x <= width,
                    row@.len() == x,
                    forall|j: int| 0 <= j < x ==> #[trigger] row@[j] == Cell::Empty,
                decreases width - x,
            {
                row.push(Cell::Empty);
                x += 1;
            }
            board.push(row);
            y += 1;
        }
        board[0][0] = Cell::Player1Old;
        board[height - 1][width - 1] = Cell::Player2Old;
        let r = GameState {
            board,
            width,
            height,
            current_player: 1,
            turn: 1,
            game_over: false,
            winner: None,
        };
        proof {
            assert(r.grid() =~~= initial_grid(width as int, height as int));
        }
        r
    }

    /// Wraps an explicit starting layout: the caller supplies the full board,
    /// and the match starts at turn 1 with player 1 to move.
    pub fn from_board(board: Vec<Vec<Cell>>) -> (r: GameState)
        requires
            1 <= board@.len(),
            1 <= board@[0]@.len(),
            forall|i: int| 0 <= i < board@.len() ==> (#[trigger] board@[i])@.len() == board@[0]@.len(),
            board@.len() * board@[0]@.len() <= MAX_CELLS,
        ensures
            r.wf(),
            r.grid() == grid_view(board@),
            r.height == board@.len(),
            r.width == board@[0]@.len(),
            r.current_player == 1,
            r.turn == 1,
            !r.game_over,
            r.winner is None,
    {
        let height = board.len();
        let width = board[0].len();
        proof {
            assert(width * height == board@.len() * board@[0]@.len()) by (nonlinear_arith)
                requires
                    width == board@[0]@.len(),
                    height == board@.len(),
            ;
        }
        GameState { board, width, height, current_player: 1, turn: 1, game_over: false, winner: None }
    }

    /// How many cells the given player owns.
    fn count_owned(&self, player: u8) -> (r: u32)
        requires
            self.wf(),
            player == 1 || player == 2,
        ensures
            r as int == grid_count(self.grid(), player),
    {
        count_owned_cells(&self.board, self.width, self.height, player)
    }

    /// Both players' scores: the number of cells each owns, player 1 first.
    pub fn calculate_scores(&self) -> (r: (u32, u32))
        requires
            self.wf(),
        ensures
            r.0 as int == grid_count(self.grid(), 1),
            r.1 as int == grid_count(self.grid(), 2),
    {
        (self.count_owned(1), self.count_owned(2))
    }

    /// Whether the current player may place `piece` with its bounding box
    /// anchored at `(x, y)`: every occupied cell in bounds, none on the
    /// opponent, and exactly one on the player's own territory (unless the
    /// player owns nothing yet).
    pub fn is_valid_move(&self, piece: &Piece, x: usize, y: usize) -> (r: bool)
        requires
            self.wf(),
        ensures
            r == self.spec_legal(piece.shape@, x as int, y as int),
    {
        check_placement(
            &self.board,
            self.width,
            self.height,
            &piece.shape,
            x,
            y,
            self.current_player,
        )
    }

    /// Settles the current player's fresh cells (and only theirs). Runs at
    /// the start of an accepted placement.
    fn convert_new_to_old(&mut self)
        requires
            old(self).wf(),
        ensures
            final(self).wf(),
            final(self).grid() == settle_grid(old(self).grid(), old(self).current_player),
            final(self).width == old(self).width,
            final(self).height == old(self).height,
            final(self).current_player == old(self).current_player,
            final(self).turn == old(self).turn,
            final(self).game_over == old(self).game_over,
            final(self).winner == old(self).winner,
    {
        let w = self.width;
        let h = self.height;
        let p = self.current_player;
        settle_board(&mut self.board, w, h, p);
    }

    /// Applies a placement if it is legal. On success the current player's
    /// fresh cells settle first (the opponent's stay fresh) and the piece's
    /// cells become the player's fresh territory; an illegal placement
    /// changes nothing and reports
    /// `false`. An accepted placement by a player who already owned at least
    /// one cell grows that player's holdings by one cell fewer than the piece
    /// holds, and leaves the opponent's holdings untouched.
    pub fn place_piece(&mut self, piece: &Piece, x: usize, y: usize) -> (r: bool)
        requires
            old(self).wf(),
        ensures
            r == old(self).spec_legal(piece.shape@, x as int, y as int),
            final(self).wf(),
            final(self).width == old(self).width,
            final(self).height == old(self).height,
            final(self).current_player == old(self).current_player,
            final(self).turn == old(self).turn,
            final(self).game_over == old(self).game_over,
            final(self).winner == old(self).winner,
            r ==> final(self).grid() == apply_to_grid(
                old(self).grid(),
                piece.shape@,
                x as int,
                y as int,
                old(self).current_player,
            ),
            !r ==> *final(self) == *old(self),
            (r && shape_distinct(piece.shape@) && grid_count(
                old(self).grid(),
                old(self).current_player,
            ) >= 1) ==> {
                &&& grid_count(final(self).grid(), old(self).current_player) == grid_count(
                    old(self).grid(),
                    old(self).current_player,
                ) + piece.shape@.len() - 1
                &&& grid_count(final(self).grid(), opponent_of(old(self).current_player))
                    == grid_count(old(self).grid(), opponent_of(old(self).current_player))
            },
    {
        let ghost g0 = old(self).grid();
        let ghost sh = piece.shape@;
        let ghost w = self.width as int;
        let ghost h = self.height as int;
        let p = self.current_player;
        if !self.is_valid_move(piece, x, y) {
            return false;
        }
        self.convert_new_to_old();
        let ghost gs = settle_grid(g0, p);
        let cell = if p == 1 {
            Cell::Player1New
        } else {
            Cell::Player2New
        };
        let mut i: usize = 0;
        while i < piece.shape.len()
            invariant
                i <= sh.len(),
                self.width == old(self).width,
                self.height == old(self).height,
                self.current_player == old(self).current_player,
                self.turn == old(self).turn,
                self.game_over == old(self).game_over,
                self.winner == old(self).winner,
                self.board@.len() == h,
                forall|yy: int| 0 <= yy < h ==> (#[trigger] self.grid()[yy]).len() == w,
                forall|yy: int, xx: int|
                    0 <= yy < h && 0 <= xx < w ==> #[trigger] self.grid()[yy][xx] == (if
                    shape_covers(sh.subrange(0, i as int), x as int, y as int, xx, yy) {
                        fresh_cell(p)
                    } else {
                        gs[yy][xx]
                    }),
            decreases sh.len() - i,
        {
            let (px, py) = piece.shape[i];
            proof {
                assert(x + sh[i as int].0 < w && y + sh[i as int].1 < h);
            }
            let ax = x + px;
            let ay = y + py;
            proof {
                assert(self.grid()[ay as int] == self.board@[ay as int]@);
            }
            let ghost gprev = self.grid();
            self.board[ay][ax] = cell;
            proof {
                let pre = sh.subrange(0, i as int);
                let cur = sh.subrange(0, i + 1);
                assert(cur.drop_last() =~= pre);
                assert(cur.last() == sh[i as int]);
                assert forall|yy: int| 0 <= yy < h implies (#[trigger] self.grid()[yy]).len()
                    == w by {
                    assert(gprev[yy].len() == w);
                    if yy != ay as int {
                        assert(self.grid()[yy] == gprev[yy]);
                    } else {
                        assert(self.grid()[yy].len() == gprev[yy].len());
                    }
                }
                assert forall|yy: int, xx: int|
                    0 <= yy < h && 0 <= xx < w implies #[trigger] self.grid()[yy][xx] == (if
                    shape_covers(cur, x as int, y as int, xx, yy) {
                        fresh_cell(p)
                    } else {
                        gs[yy][xx]
                    }) by {
                    assert(gprev[yy].len() == w);
                    if !(yy == ay as int && xx == ax as int) {
                        assert(self.grid()[yy][xx] == gprev[yy][xx]);
                    }
                    if yy == ay && xx == ax {
                        assert(x + cur[i as int].0 == xx && y + cur[i as int].1 == yy);
                        assert(shape_covers(cur, x as int, y as int, xx, yy));
                    } else {
                        if shape_covers(pre, x as int, y as int, xx, yy) {
                            let k = choose|k: int|
                                0 <= k < pre.len() && x + pre[k].0 == xx && y + pre[k].1 == yy;
                            assert(cur[k] == pre[k]);
                            assert(shape_covers(cur, x as int, y as int, xx, yy));
                        }
                        if shape_covers(cur, x as int, y as int, xx, yy) {
                            let k = choose|k: int|
                                0 <= k < cur.len() && x + cur[k].0 == xx && y + cur[k].1 == yy;
                            assert(k < i as int);
                            assert(pre[k] == cur[k]);
                            assert(shape_covers(pre, x as int, y as int, xx, yy));
                        }
                    }
                }
            }
            i += 1;
        }
        proof {
            assert(sh.subrange(0, sh.len() as int) =~= sh);
            assert(final(self).grid() =~~= place_on_grid(gs, sh, x as int, y as int, p));
            if shape_distinct(sh) && grid_count(g0, p) >= 1 {
                lemma_apply_score_change(g0, w, h, sh, x as int, y as int, p);
            }
        }
        true
    }

    /// Every anchor at which the current player may place the piece, scanned
    /// row by row and left to right: the order is stable and callers that
    /// "pick the first" depend on it.
    pub fn get_valid_moves(&self, piece: &Piece) -> (r: Vec<(usize, usize)>)
        requires
            self.wf(),
        ensures
            r@ == legal_positions(
                self.grid(),
                self.width as int,
                self.height as int,
                piece.shape@,
                self.current_player,
            ),
    {
        let ghost g = self.grid();
        let ghost sh = piece.shape@;
        let ghost w = self.width as int;
        let ghost h = self.height as int;
        let ghost p = self.current_player;
        let mut moves: Vec<(usize, usize)> = Vec::new();
        let mut y: usize = 0;
        while y < self.height
            invariant
                y <= self.height,
                moves@ == legal_positions_upto(g, w, h, sh, p, y as int),
            decreases self.height - y,
        {
            let mut x: usize = 0;
            while x < self.width
                invariant
                    x <= self.width,
                    y < self.height,
                    moves@ == legal_positions_upto(g, w, h, sh, p, y as int) + row_legal_positions(
                        g,
                        w,
                        h,
                        sh,
                        p,
                        y as int,
                        x as int,
                    ),
                decreases self.width - x,
            {
                if self.is_valid_move(piece, x, y) {
                    moves.push((x, y));
                }
                proof {
                    assert(moves@ =~= legal_positions_upto(g, w, h, sh, p, y as int)
                        + row_legal_positions(g, w, h, sh, p, y as int, x + 1));
                }
                x += 1;
            }
            y += 1;
        }
        moves
    }

    /// Checks whether the piece just drawn ends the game: if the current
    /// player has no legal placement for it, the match is over and the player
    /// owning strictly more cells wins (a tie leaves no winner). Otherwise
    /// nothing changes.
    pub fn check_game_over(&mut self, piece: &Piece) -> (r: bool)
        requires
            old(self).wf(),
        ensures
            r == (legal_positions(
                old(self).grid(),
                old(self).width as int,
                old(self).height as int,
                piece.shape@,
                old(self).current_player,
            ).len() == 0),
            final(self).wf(),
            final(self).grid() == old(self).grid(),
            final(self).width == old(self).width,
            final(self).height == old(self).height,
            final(self).current_player == old(self).current_player,
            final(self).turn == old(self).turn,
            !r ==> *final(self) == *old(self),
            r ==> final(self).game_over && final(self).winner == winner_of(old(self).grid()),
    {
        let moves = self.get_valid_moves(piece);
        if moves.len() == 0 {
            self.game_over = true;
            let (s1, s2) = self.calculate_scores();
            if s1 > s2 {
                self.winner = Some(1);
            } else if s2 > s1 {
                self.winner = Some(2);
            } else {
                self.winner = None;
            }
            true
        } else {
            false
        }
    }

    /// Renders the board as text: a column-digit header, then one line per
    /// row with the row number and one character per cell.
    pub fn display_board(&self) -> String
        requires
            self.wf(),
    {
        let mut out: Vec<char> = Vec::new();
        out.push(' ');
        out.push(' ');
        out.push(' ');
        let mut x: usize = 0;
        while x < self.width
            decreases self.width - x,
        {
            out.push(' ');
            crate::text::push_decimal(&mut out, (x % 10) as u64);
            x += 1;
        }
        out.push('\n');
        let mut y: usize = 0;
        while y < self.height
            invariant
                self.wf(),
            decreases self.height - y,
        {
            if y < 10 {
                out.push(' ');
            }
            crate::text::push_decimal(&mut out, y as u64);
            out.push(' ');
            let mut x2: usize = 0;
            while x2 < self.width
                invariant
                    self.wf(),
                    y < self.height,
                decreases self.width - x2,
            {
                proof {
                    assert(self.grid()[y as int] == self.board@[y as int]@);
                }
                let cell = self.board[y][x2];
                out.push(cell.to_char());
                out.push(' ');
                x2 += 1;
            }
            out.push('\n');
            y += 1;
        }
        crate::text::chars_to_string(&out)
    }

    /// Hands the turn to the other player.
    pub fn switch_player(&mut self)
        requires
            old(self).turn < u32::MAX,
        ensures
            final(self).current_player == opponent_of(old(self).current_player),
            final(self).turn == old(self).turn + 1,
            final(self).board == old(self).board,
            final(self).width == old(self).width,
            final(self).height == old(self).height,
            final(self).game_over == old(self).game_over,
            final(self).winner == old(self).winner,
    {
        self.current_player = if self.current_player == 1 {
            2
        } else {
            1
        };
        self.turn += 1;
    }
}

} // verus!
