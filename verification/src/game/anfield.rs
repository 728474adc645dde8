//! The Anfield: the board as the wire protocol sees it, with bounds-checked
//! cell access and the per-player queries the protocol-side AI needs.

use vstd::prelude::*;
use crate::rules::{
    count_owned_cells, grid_count, grid_view, grid_wf, owned_by, owner_of, settle_board,
    settle_grid,
};

pub use crate::rules::Cell;

verus! {

/// The positions of `q`'s cells in row `yy`, left to right, up to column
/// `upto_x`.
pub open spec fn row_territory(
    g: Seq<Seq<Cell>>,
    q: u8,
    yy: int,
    upto_x: int,
) -> Seq<(usize, usize)>
    decreases upto_x,
{
    if upto_x <= 0 {
        Seq::empty()
    } else {
        row_territory(g, q, yy, upto_x - 1) + if owned_by(g[yy][upto_x - 1], q) {
            seq![(((upto_x - 1) as usize), (yy as usize))]
        } else {
            Seq::empty()
        }
    }
}

/// The positions of `q`'s cells in the rows before `upto_y`, row-major.
pub open spec fn territory_upto(
    g: Seq<Seq<Cell>>,
    w: int,
    q: u8,
    upto_y: int,
) -> Seq<(usize, usize)>
    decreases upto_y,
{
    if upto_y <= 0 {
        Seq::empty()
    } else {
        territory_upto(g, w, q, upto_y - 1) + row_territory(g, q, upto_y - 1, w)
    }
}

/// Every position owned by `q`, enumerated row-major.
pub open spec fn territory_positions(g: Seq<Seq<Cell>>, w: int, h: int, q: u8) -> Seq<
    (usize, usize),
> {
    territory_upto(g, w, q, h)
}

/// The board a match is played on: a rectangular grid of cells.
#[derive(Debug)]
pub struct Anfield {
    pub width: usize,
    pub height: usize,
    pub grid: Vec<Vec<Cell>>,
}

impl Anfield {
    /// The board as a mathematical grid, indexed `[y][x]`.
    pub open spec fn view_grid(self) -> Seq<Seq<Cell>> {
        grid_view(self.grid@)
    }

    /// A rectangular board of bounded area.
    pub open spec fn wf(self) -> bool {
        &&& grid_wf(self.view_grid(), self.width as int, self.height as int)
        &&& self.width * self.height <= crate::rules::MAX_CELLS
    }

    /// An empty board of the given size.
    pub fn new(width: usize, height: usize) -> (r: Anfield)
        requires
            width * height <= crate::rules::MAX_CELLS,
        ensures
            r.wf(),
            r.width == width,
            r.height == height,
            forall|y: int, x: int|
                0 <= y < height && 0 <= x < width ==> #[trigger] r.view_grid()[y][x] == Cell::Empty,
    {
        let mut grid: Vec<Vec<Cell>> = Vec::new();
        let mut y: usize = 0;
        while y < height
            invariant
                y <= height,
                grid@.len() == y,
                forall|i: int| 0 <= i < y ==> (#[trigger] grid@[i])@.len() == width,
                forall|i: int, j: int|
                    0 <= i < y && 0 <= j < width ==> #[trigger] grid@[i]@[j] == Cell::Empty,
            decreases height - y,
        {
            let mut row: Vec<Cell> = Vec::new();
            let mut x: usize = 0;
            while x < width
                invariant
                    x <= width,
                    row@.len() == x,
                    forall|j: int| 0 <= j < x ==> #[trigger] row@[j] == Cell::Empty,
                decreases width - x,
            {
                row.push(Cell::Empty);
                x += 1;
            }
            grid.push(row);
            y += 1;
        }
        Anfield { width, height, grid }
    }

    /// The cell at `(x, y)`, or `None` outside the board.
    pub fn get_cell(&self, x: usize, y: usize) -> (r: Option<Cell>)
        requires
            self.wf(),
        ensures
            r == (if x < self.width && y < self.height {
                Some(self.view_grid()[y as int][x as int])
            } else {
                Option::<Cell>::None
            }),
    {
        if x < self.width && y < self.height {
            proof {
                assert(self.view_grid()[y as int] == self.grid@[y as int]@);
            }
            Some(self.grid[y][x])
        } else {
            None
        }
    }

    /// Writes the cell at `(x, y)`; reports `false`, changing nothing, when
    /// the position lies outside the board.
    pub fn set_cell(&mut self, x: usize, y: usize, cell: Cell) -> (r: bool)
        requires
            old(self).wf(),
        ensures
            r == (x < old(self).width && y < old(self).height),
            final(self).wf(),
            final(self).width == old(self).width,
            final(self).height == old(self).height,
            r ==> final(self).view_grid() == old(self).view_grid().update(
                y as int,
                old(self).view_grid()[y as int].update(x as int, cell),
            ),
            !r ==> *final(self) == *old(self),
    {
        if x < self.width && y < self.height {
            proof {
                assert(self.view_grid()[y as int] == self.grid@[y as int]@);
            }
            let ghost gprev = self.view_grid();
            self.grid[y][x] = cell;
            proof {
                assert forall|yy: int|
                    0 <= yy < old(self).height implies (#[trigger] self.view_grid()[yy]).len()
                    == old(self).width by {
                    assert(gprev[yy].len() == old(self).width);
                    if yy != y as int {
                        assert(self.view_grid()[yy] == gprev[yy]);
                    } else {
                        assert(self.view_grid()[yy].len() == gprev[yy].len());
                    }
                }
                assert(self.view_grid() =~~= gprev.update(
                    y as int,
                    gprev[y as int].update(x as int, cell),
                ));
            }
            true
        } else {
            false
        }
    }

    /// Whether `(x, y)` lies on the board.
    pub fn is_valid_position(&self, x: usize, y: usize) -> (r: bool)
        ensures
            r == (x < self.width && y < self.height),
    {
        x < self.width && y < self.height
    }

    /// Every position the given player owns, scanned row by row and left to
    /// right.
    pub fn get_player_territory(&self, player_id: u8) -> (r: Vec<(usize, usize)>)
        requires
            self.wf(),
            player_id == 1 || player_id == 2,
        ensures
            r@ == territory_positions(
                self.view_grid(),
                self.width as int,
                self.height as int,
                player_id,
            ),
    {
        let ghost g = self.view_grid();
        let ghost w = self.width as int;
        let mut territory: Vec<(usize, usize)> = Vec::new();
        let mut y: usize = 0;
        while y < self.height
            invariant
                y <= self.height,
                territory@ == territory_upto(g, w, player_id, y as int),
            decreases self.height - y,
        {
            let mut x: usize = 0;
            while x < self.width
                invariant
                    x <= self.width,
                    y < self.height,
                    territory@ == territory_upto(g, w, player_id, y as int) + row_territory(
                        g,
                        player_id,
                        y as int,
                        x as int,
                    ),
                decreases self.width - x,
            {
                proof {
                    assert(g[y as int] == self.grid@[y as int]@);
                }
                if self.grid[y][x].is_player(player_id) {
                    territory.push((x, y));
                }
                proof {
                    assert(territory@ =~= territory_upto(g, w, player_id, y as int)
                        + row_territory(g, player_id, y as int, x + 1));
                }
                x += 1;
            }
            y += 1;
        }
        territory
    }

    /// How many cells the given player owns.
    pub fn count_player_cells(&self, player_id: u8) -> (r: u32)
        requires
            self.wf(),
            player_id == 1 || player_id == 2,
        ensures
            r as int == grid_count(self.view_grid(), player_id),
    {
        count_owned_cells(&self.grid, self.width, self.height, player_id)
    }

    /// Settles the given player's fresh cells (and only theirs): the per-turn
    /// conversion of fresh territory to settled territory.
    pub fn update_old_pieces(&mut self, player_id: u8)
        requires
            old(self).wf(),
        ensures
            final(self).wf(),
            final(self).width == old(self).width,
            final(self).height == old(self).height,
            final(self).view_grid() == settle_grid(old(self).view_grid(), player_id),
    {
        let w = self.width;
        let h = self.height;
        settle_board(&mut self.grid, w, h, player_id);
    }
}

} // verus!
