//! Position scoring for the protocol-side AI: how good it is to anchor the
//! piece in play at a given position, from cell gain, expansion room,
//! opponent blocking, and distance to the centre.

use vstd::prelude::*;
use crate::game::anfield::Anfield;
use crate::game::piece::Piece;
use crate::game::player::Player;
use crate::rules::{Cell, grid_count, owned_by, shape_in_bounds};
use crate::ai::abs_diff;

verus! {

/// `1` when `(xx, yy)` lies on the board and is empty.
pub open spec fn empty_at(g: Seq<Seq<Cell>>, w: int, h: int, xx: int, yy: int) -> int {
    if 0 <= xx < w && 0 <= yy < h && g[yy][xx] == Cell::Empty {
        1int
    } else {
        0int
    }
}

/// `1` when `(xx, yy)` lies on the board and belongs to `q`.
pub open spec fn owned4_at(g: Seq<Seq<Cell>>, w: int, h: int, xx: int, yy: int, q: u8) -> int {
    if 0 <= xx < w && 0 <= yy < h && owned_by(g[yy][xx], q) {
        1int
    } else {
        0int
    }
}

/// How many of the four cardinal neighbours of `(cx, cy)` are empty.
pub open spec fn adj4_empty(g: Seq<Seq<Cell>>, w: int, h: int, cx: int, cy: int) -> int {
    empty_at(g, w, h, cx, cy + 1) + empty_at(g, w, h, cx + 1, cy) + empty_at(g, w, h, cx, cy - 1)
        + empty_at(g, w, h, cx - 1, cy)
}

/// How many of the four cardinal neighbours of `(cx, cy)` belong to `q`.
pub open spec fn adj4_owned(g: Seq<Seq<Cell>>, w: int, h: int, cx: int, cy: int, q: u8) -> int {
    owned4_at(g, w, h, cx, cy + 1, q) + owned4_at(g, w, h, cx + 1, cy, q) + owned4_at(
        g,
        w,
        h,
        cx,
        cy - 1,
        q,
    ) + owned4_at(g, w, h, cx - 1, cy, q)
}

/// The empty cardinal neighbours of every occupied piece cell, summed.
pub open spec fn adj4_empty_sum(
    g: Seq<Seq<Cell>>,
    w: int,
    h: int,
    sh: Seq<(usize, usize)>,
    x: int,
    y: int,
) -> int
    decreases sh.len(),
{
    if sh.len() == 0 {
        0
    } else {
        adj4_empty_sum(g, w, h, sh.drop_last(), x, y) + adj4_empty(
            g,
            w,
            h,
            x + sh.last().0,
            y + sh.last().1,
        )
    }
}

/// The cardinal neighbours of every occupied piece cell that belong to `q`,
/// summed.
pub open spec fn adj4_owned_sum(
    g: Seq<Seq<Cell>>,
    w: int,
    h: int,
    sh: Seq<(usize, usize)>,
    x: int,
    y: int,
    q: u8,
) -> int
    decreases sh.len(),
{
    if sh.len() == 0 {
        0
    } else {
        adj4_owned_sum(g, w, h, sh.drop_last(), x, y, q) + adj4_owned(
            g,
            w,
            h,
            x + sh.last().0,
            y + sh.last().1,
            q,
        )
    }
}

/// The evaluator's score for anchoring a piece with cells `sh` at `(x, y)`:
/// ten points per cell gained, five per adjacent empty cell, three per
/// blocking point (itself two per adjacent opponent cell), minus the distance
/// to the centre.
pub open spec fn position_eval(
    g: Seq<Seq<Cell>>,
    w: int,
    h: int,
    sh: Seq<(usize, usize)>,
    x: int,
    y: int,
    opp: u8,
) -> int {
    10 * sh.len() + 5 * adj4_empty_sum(g, w, h, sh, x, y) + 3 * (2 * adj4_owned_sum(
        g,
        w,
        h,
        sh,
        x,
        y,
        opp,
    )) - (abs_diff(x, w / 2) + abs_diff(y, h / 2))
}

/// Scores candidate placements for the protocol-side strategy.
pub struct Evaluator;

impl Evaluator {
    /// How many of the four cardinal neighbours of `(cx, cy)` are empty.
    pub(crate) fn count_adjacent_empty_cells(&self, anfield: &Anfield, cx: usize, cy: usize) -> (r: u32)
        requires
            anfield.wf(),
            cx < anfield.width,
            cy < anfield.height,
        ensures
            r as int == adj4_empty(
                anfield.view_grid(),
                anfield.width as int,
                anfield.height as int,
                cx as int,
                cy as int,
            ),
            r <= 4,
    {
        let g = &anfield.grid;
        let w = anfield.width;
        let h = anfield.height;
        proof {
            assert(forall|yy: int|
                0 <= yy < h ==> #[trigger] anfield.view_grid()[yy] == g@[yy]@);
        }
        let mut r: u32 = 0;
        if cy + 1 < h {
            proof {
                assert(anfield.view_grid()[cy + 1] == g@[cy + 1]@);
            }
            if matches!(g[cy + 1][cx], Cell::Empty) {
                r += 1;
            }
        }
        if cx + 1 < w {
            proof {
                assert(anfield.view_grid()[cy as int] == g@[cy as int]@);
            }
            if matches!(g[cy][cx + 1], Cell::Empty) {
                r += 1;
            }
        }
        if cy > 0 {
            proof {
                assert(anfield.view_grid()[cy - 1] == g@[cy - 1]@);
            }
            if matches!(g[cy - 1][cx], Cell::Empty) {
                r += 1;
            }
        }
        if cx > 0 {
            proof {
                assert(anfield.view_grid()[cy as int] == g@[cy as int]@);
            }
            if matches!(g[cy][cx - 1], Cell::Empty) {
                r += 1;
            }
        }
        r
    }

    /// How many of the four cardinal neighbours of `(cx, cy)` belong to `q`.
    pub(crate) fn count_adjacent_owned_cells(&self, anfield: &Anfield, cx: usize, cy: usize, q: u8) -> (r: u32)
        requires
            anfield.wf(),
            q == 1 || q == 2,
            cx < anfield.width,
            cy < anfield.height,
        ensures
            r as int == adj4_owned(
                anfield.view_grid(),
                anfield.width as int,
                anfield.height as int,
                cx as int,
                cy as int,
                q,
            ),
            r <= 4,
    {
        let g = &anfield.grid;
        let w = anfield.width;
        let h = anfield.height;
        proof {
            assert(forall|yy: int|
                0 <= yy < h ==> #[trigger] anfield.view_grid()[yy] == g@[yy]@);
        }
        let mut r: u32 = 0;
        if cy + 1 < h {
            proof {
                assert(anfield.view_grid()[cy + 1] == g@[cy + 1]@);
            }
            if g[cy + 1][cx].is_player(q) {
                r += 1;
            }
        }
        if cx + 1 < w {
            proof {
                assert(anfield.view_grid()[cy as int] == g@[cy as int]@);
            }
            if g[cy][cx + 1].is_player(q) {
                r += 1;
            }
        }
        if cy > 0 {
            proof {
                assert(anfield.view_grid()[cy - 1] == g@[cy - 1]@);
            }
            if g[cy - 1][cx].is_player(q) {
                r += 1;
            }
        }
        if cx > 0 {
            proof {
                assert(anfield.view_grid()[cy as int] == g@[cy as int]@);
            }
            if g[cy][cx - 1].is_player(q) {
                r += 1;
            }
        }
        r
    }

    /// The sum of empty cardinal neighbours over the placement's cells: how
    /// much room the placement opens for later turns.
    pub fn evaluate_expansion_potential(
        &self,
        anfield: &Anfield,
        piece: &Piece,
        x: usize,
        y: usize,
    ) -> (r: i32)
        requires
            anfield.wf(),
            piece.wf(),
            piece.cells().len() <= crate::rules::MAX_CELLS,
            shape_in_bounds(
                piece.cells(),
                anfield.width as int,
                anfield.height as int,
                x as int,
                y as int,
            ),
        ensures
            r as int == adj4_empty_sum(
                anfield.view_grid(),
                anfield.width as int,
                anfield.height as int,
                piece.cells(),
                x as int,
                y as int,
            ),
            0 <= r <= 4 * piece.cells().len(),
    {
        let ghost g = anfield.view_grid();
        let ghost w = anfield.width as int;
        let ghost h = anfield.height as int;
        let ghost sh = piece.cells();
        let rel = piece.get_piece_cells();
        let mut total: u32 = 0;
        let mut i: usize = 0;
        while i < rel.len()
            invariant
                i <= sh.len(),
                rel@ == sh,
                total <= 4 * i,
                total as int == adj4_empty_sum(g, w, h, sh.subrange(0, i as int), x as int, y as int),
            decreases sh.len() - i,
        {
            let (px, py) = rel[i];
            proof {
                assert(x + sh[i as int].0 < w && y + sh[i as int].1 < h);
                assert(sh.subrange(0, i + 1).drop_last() =~= sh.subrange(0, i as int));
                assert(sh.subrange(0, i + 1).last() == sh[i as int]);
            }
            let c = self.count_adjacent_empty_cells(anfield, x + px, y + py);
            total += c;
            i += 1;
        }
        proof {
            assert(sh.subrange(0, sh.len() as int) =~= sh);
        }
        total as i32
    }

    /// The blocking score of the placement: two points for each opponent cell
    /// cardinally adjacent to one of the placement's cells.
    pub fn evaluate_blocking_potential(
        &self,
        anfield: &Anfield,
        piece: &Piece,
        x: usize,
        y: usize,
        opponent: &Player,
    ) -> (r: i32)
        requires
            anfield.wf(),
            piece.wf(),
            piece.cells().len() <= crate::rules::MAX_CELLS,
            opponent.id == 1 || opponent.id == 2,
            shape_in_bounds(
                piece.cells(),
                anfield.width as int,
                anfield.height as int,
                x as int,
                y as int,
            ),
        ensures
            r as int == 2 * adj4_owned_sum(
                anfield.view_grid(),
                anfield.width as int,
                anfield.height as int,
                piece.cells(),
                x as int,
                y as int,
                opponent.id,
            ),
            0 <= r <= 8 * piece.cells().len(),
    {
        let ghost g = anfield.view_grid();
        let ghost w = anfield.width as int;
        let ghost h = anfield.height as int;
        let ghost sh = piece.cells();
        let rel = piece.get_piece_cells();
        let mut total: u32 = 0;
        let mut i: usize = 0;
        while i < rel.len()
            invariant
                i <= sh.len(),
                rel@ == sh,
                total <= 8 * i,
                total as int == 2 * adj4_owned_sum(
                    g,
                    w,
                    h,
                    sh.subrange(0, i as int),
                    x as int,
                    y as int,
                    opponent.id,
                ),
            decreases sh.len() - i,
        {
            let (px, py) = rel[i];
            proof {
                assert(x + sh[i as int].0 < w && y + sh[i as int].1 < h);
                assert(sh.subrange(0, i + 1).drop_last() =~= sh.subrange(0, i as int));
                assert(sh.subrange(0, i + 1).last() == sh[i as int]);
            }
            let c = self.count_adjacent_owned_cells(anfield, x + px, y + py, opponent.id);
            total += 2 * c;
            i += 1;
        }
        proof {
            assert(sh.subrange(0, sh.len() as int) =~= sh);
        }
        total as i32
    }

    /// The connectivity score of the placement: one point for each cell of
    /// the given player cardinally adjacent to one of the placement's cells.
    pub fn evaluate_connectivity(
        &self,
        anfield: &Anfield,
        piece: &Piece,
        x: usize,
        y: usize,
        player_id: u8,
    ) -> (r: i32)
        requires
            anfield.wf(),
            piece.wf(),
            piece.cells().len() <= crate::rules::MAX_CELLS,
            player_id == 1 || player_id == 2,
            shape_in_bounds(
                piece.cells(),
                anfield.width as int,
                anfield.height as int,
                x as int,
                y as int,
            ),
        ensures
            r as int == adj4_owned_sum(
                anfield.view_grid(),
                anfield.width as int,
                anfield.height as int,
                piece.cells(),
                x as int,
                y as int,
                player_id,
            ),
            0 <= r <= 4 * piece.cells().len(),
    {
        let ghost g = anfield.view_grid();
        let ghost w = anfield.width as int;
        let ghost h = anfield.height as int;
        let ghost sh = piece.cells();
        let rel = piece.get_piece_cells();
        let mut total: u32 = 0;
        let mut i: usize = 0;
        while i < rel.len()
            invariant
                i <= sh.len(),
                rel@ == sh,
                total <= 4 * i,
                total as int == adj4_owned_sum(
                    g,
                    w,
                    h,
                    sh.subrange(0, i as int),
                    x as int,
                    y as int,
                    player_id,
                ),
            decreases sh.len() - i,
        {
            let (px, py) = rel[i];
            proof {
                assert(x + sh[i as int].0 < w && y + sh[i as int].1 < h);
                assert(sh.subrange(0, i + 1).drop_last() =~= sh.subrange(0, i as int));
                assert(sh.subrange(0, i + 1).last() == sh[i as int]);
            }
            let c = self.count_adjacent_owned_cells(anfield, x + px, y + py, player_id);
            total += c;
            i += 1;
        }
        proof {
            assert(sh.subrange(0, sh.len() as int) =~= sh);
        }
        total as i32
    }

    /// The current cell count of the given player.
    pub fn calculate_territory_score(&self, anfield: &Anfield, player_id: u8) -> (r: u32)
        requires
            anfield.wf(),
            player_id == 1 || player_id == 2,
        ensures
            r as int == grid_count(anfield.view_grid(), player_id),
    {
        anfield.count_player_cells(player_id)
    }

    /// The overall score for anchoring the piece at `(x, y)`.
    pub fn evaluate_position(
        &self,
        anfield: &Anfield,
        piece: &Piece,
        x: usize,
        y: usize,
        player: &Player,
        opponent: &Player,
    ) -> (r: i32)
        requires
            anfield.wf(),
            piece.wf(),
            piece.cells().len() <= crate::rules::MAX_CELLS,
            opponent.id == 1 || opponent.id == 2,
            x < anfield.width,
            y < anfield.height,
            shape_in_bounds(
                piece.cells(),
                anfield.width as int,
                anfield.height as int,
                x as int,
                y as int,
            ),
        ensures
            r as int == position_eval(
                anfield.view_grid(),
                anfield.width as int,
                anfield.height as int,
                piece.cells(),
                x as int,
                y as int,
                opponent.id,
            ),
            -40000000 <= r as int <= 1030000000,
    {
        proof {
            assert(anfield.width <= 19000000 && anfield.height <= 19000000) by (nonlinear_arith)
                requires
                    anfield.width * anfield.height <= 19000000,
                    x < anfield.width,
                    y < anfield.height,
                    x >= 0,
                    y >= 0,
            ;
        }
        let gained = piece.count_cells() as i64 * 10;
        let expansion = self.evaluate_expansion_potential(anfield, piece, x, y) as i64 * 5;
        let blocking = self.evaluate_blocking_potential(anfield, piece, x, y, opponent) as i64 * 3;
        let center_x = anfield.width / 2;
        let center_y = anfield.height / 2;
        let xd: i64 = if x >= center_x {
            (x - center_x) as i64
        } else {
            (center_x - x) as i64
        };
        let yd: i64 = if y >= center_y {
            (y - center_y) as i64
        } else {
            (center_y - y) as i64
        };
        let score: i64 = gained + expansion + blocking - (xd + yd);
        score as i32
    }
}

} // verus!
