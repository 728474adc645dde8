//! Pieces as the wire protocol carries them: a rectangular boolean mask,
//! `true` where the piece occupies a cell.

use vstd::prelude::*;

verus! {

/// The occupied positions of row `yy` of a mask, left to right, up to column
/// `upto_x`.
pub open spec fn mask_row_cells(m: Seq<Seq<bool>>, yy: int, upto_x: int) -> Seq<(usize, usize)>
    decreases upto_x,
{
    if upto_x <= 0 {
        Seq::empty()
    } else {
        mask_row_cells(m, yy, upto_x - 1) + if m[yy][upto_x - 1] {
            seq![(((upto_x - 1) as usize), (yy as usize))]
        } else {
            Seq::empty()
        }
    }
}

/// The occupied positions of the rows before `upto_y`, row-major.
pub open spec fn mask_cells_upto(m: Seq<Seq<bool>>, w: int, upto_y: int) -> Seq<(usize, usize)>
    decreases upto_y,
{
    if upto_y <= 0 {
        Seq::empty()
    } else {
        mask_cells_upto(m, w, upto_y - 1) + mask_row_cells(m, upto_y - 1, w)
    }
}

/// Every occupied position of a `w` by `h` mask, enumerated row-major: the
/// piece's shape as a list of `(x, y)` offsets.
pub open spec fn mask_cells(m: Seq<Seq<bool>>, w: int, h: int) -> Seq<(usize, usize)> {
    mask_cells_upto(m, w, h)
}

/// A piece: a `width` by `height` mask of occupied cells.
#[derive(Debug)]
pub struct Piece {
    pub width: usize,
    pub height: usize,
    pub shape: Vec<Vec<bool>>,
}

impl Piece {
    /// The mask as a mathematical grid, indexed `[y][x]`.
    pub open spec fn mask(self) -> Seq<Seq<bool>> {
        Seq::new(self.shape@.len(), |y: int| self.shape@[y]@)
    }

    /// A rectangular mask matching the stated bounding box.
    pub open spec fn wf(self) -> bool {
        &&& self.shape@.len() == self.height
        &&& forall|y: int| 0 <= y < self.height ==> (#[trigger] self.mask()[y]).len() == self.width
    }

    /// The shape of this piece as `(x, y)` offsets, row-major.
    pub open spec fn cells(self) -> Seq<(usize, usize)> {
        mask_cells(self.mask(), self.width as int, self.height as int)
    }

    /// An all-empty mask of the given size.
    pub fn new(width: usize, height: usize) -> (r: Piece)
        requires
            width * height <= crate::rules::MAX_CELLS,
        ensures
            r.wf(),
            r.width == width,
            r.height == height,
            forall|y: int, x: int|
                0 <= y < height && 0 <= x < width ==> !(#[trigger] r.mask()[y][x]),
    {
        let mut shape: Vec<Vec<bool>> = Vec::new();
        let mut y: usize = 0;
        while y < height
            invariant
                y <= height,
                shape@.len() == y,
                forall|i: int| 0 <= i < y ==> (#[trigger] shape@[i])@.len() == width,
                forall|i: int, j: int| 0 <= i < y && 0 <= j < width ==> !(#[trigger] shape@[i]@[j]),
            decreases height - y,
        {
            let mut row: Vec<bool> = Vec::new();
            let mut x: usize = 0;
            while x < width
                invariant
                    x <= width,
                    row@.len() == x,
                    forall|j: int| 0 <= j < x ==> !(#[trigger] row@[j]),
                decreases width - x,
            {
                row.push(false);
                x += 1;
            }
            shape.push(row);
            y += 1;
        }
        Piece { width, height, shape }
    }

    /// Reads a piece from its pattern lines: the bounding box is the number
    /// of lines by the length of the first line, and every character other
    /// than a dot marks an occupied cell.
    pub fn from_pattern(pattern: Vec<String>) -> (r: Piece)
        ensures
            r.wf(),
            r.height == pattern@.len(),
            r.width as int == (if pattern@.len() > 0 {
                pattern@[0]@.len() as int
            } else {
                0int
            }),
            forall|y: int, x: int|
                0 <= y < r.height && 0 <= x < r.width ==> #[trigger] r.mask()[y][x] == (x
                    < pattern@[y]@.len() && pattern@[y]@[x] != '.'),
    {
        let height = pattern.len();
        let width = if height > 0 {
            pattern[0].as_str().unicode_len()
        } else {
            0
        };
        let mut shape: Vec<Vec<bool>> = Vec::new();
        let mut y: usize = 0;
        while y < height
            invariant
                y <= height,
                width as int == (if height > 0 {
                    pattern@[0]@.len() as int
                } else {
                    0int
                }),
                shape@.len() == y,
                forall|i: int| 0 <= i < y ==> (#[trigger] shape@[i])@.len() == width,
                forall|i: int, j: int|
                    0 <= i < y && 0 <= j < width ==> #[trigger] shape@[i]@[j] == (j
                        < pattern@[i]@.len() && pattern@[i]@[j] != '.'),
            decreases height - y,
        {
            let line = &pattern[y];
            let line_len = line.as_str().unicode_len();
            let mut row: Vec<bool> = Vec::new();
            let mut x: usize = 0;
            while x < width
                invariant
                    x <= width,
                    y < height,
                    line_len == pattern@[y as int]@.len(),
                    row@.len() == x,
                    forall|j: int|
                        0 <= j < x ==> #[trigger] row@[j] == (j < pattern@[y as int]@.len()
                            && pattern@[y as int]@[j] != '.'),
                decreases width - x,
            {
                if x < line_len {
                    let c = line.as_str().get_char(x);
                    row.push(c != '.');
                } else {
                    row.push(false);
                }
                x += 1;
            }
            shape.push(row);
            y += 1;
        }
        Piece { width, height, shape }
    }

    /// Whether the mask occupies `(x, y)`; positions outside the bounding box
    /// are unoccupied.
    pub fn has_cell_at(&self, x: usize, y: usize) -> (r: bool)
        requires
            self.wf(),
        ensures
            r == (x < self.width && y < self.height && self.mask()[y as int][x as int]),
    {
        if x < self.width && y < self.height {
            proof {
                assert(self.mask()[y as int] == self.shape@[y as int]@);
            }
            self.shape[y][x]
        } else {
            false
        }
    }

    /// The occupied offsets, row-major.
    pub fn get_piece_cells(&self) -> (r: Vec<(usize, usize)>)
        requires
            self.wf(),
        ensures
            r@ == self.cells(),
    {
        let ghost m = self.mask();
        let ghost w = self.width as int;
        let mut cells: Vec<(usize, usize)> = Vec::new();
        let mut y: usize = 0;
        while y < self.height
            invariant
                y <= self.height,
                cells@ == mask_cells_upto(m, w, y as int),
            decreases self.height - y,
        {
            let mut x: usize = 0;
            while x < self.width
                invariant
                    x <= self.width,
                    y < self.height,
                    cells@ == mask_cells_upto(m, w, y as int) + mask_row_cells(m, y as int, x as int),
                decreases self.width - x,
            {
                proof {
                    assert(m[y as int] == self.shape@[y as int]@);
                }
                if self.shape[y][x] {
                    cells.push((x, y));
                }
                proof {
                    assert(cells@ =~= mask_cells_upto(m, w, y as int) + mask_row_cells(
                        m,
                        y as int,
                        x + 1,
                    ));
                }
                x += 1;
            }
            y += 1;
        }
        cells
    }

    /// The occupied cells translated by `(offset_x, offset_y)`.
    pub fn get_absolute_cells(&self, offset_x: usize, offset_y: usize) -> (r: Vec<(usize, usize)>)
        requires
            self.wf(),
            offset_x + self.width <= usize::MAX,
            offset_y + self.height <= usize::MAX,
        ensures
            r@.len() == self.cells().len(),
            forall|k: int|
                0 <= k < r@.len() ==> #[trigger] r@[k] == (
                    ((self.cells()[k].0 + offset_x) as usize),
                    ((self.cells()[k].1 + offset_y) as usize),
                ),
    {
        proof {
            lemma_mask_cells_in_box(self.mask(), self.width as int, self.height as int);
        }
        let rel = self.get_piece_cells();
        let mut cells: Vec<(usize, usize)> = Vec::new();
        let mut i: usize = 0;
        while i < rel.len()
            invariant
                i <= rel@.len(),
                rel@ == self.cells(),
                cells@.len() == i,
                forall|k: int|
                    0 <= k < i ==> #[trigger] cells@[k] == (
                        ((self.cells()[k].0 + offset_x) as usize),
                        ((self.cells()[k].1 + offset_y) as usize),
                    ),
            decreases rel@.len() - i,
        {
            let (rx, ry) = rel[i];
            cells.push((offset_x + rx, offset_y + ry));
            i += 1;
        }
        cells
    }

    /// How many cells the piece occupies.
    pub fn count_cells(&self) -> (r: usize)
        requires
            self.wf(),
        ensures
            r == self.cells().len(),
    {
        self.get_piece_cells().len()
    }
}

proof fn lemma_mask_row_cells_in_box(m: Seq<Seq<bool>>, yy: int, upto_x: int)
    requires
        0 <= yy <= usize::MAX,
        upto_x <= usize::MAX,
    ensures
        forall|k: int|
            0 <= k < mask_row_cells(m, yy, upto_x).len() ==> {
                let c = #[trigger] mask_row_cells(m, yy, upto_x)[k];
                c.0 < upto_x && c.1 == yy
            },
    decreases upto_x,
{
    if upto_x > 0 {
        lemma_mask_row_cells_in_box(m, yy, upto_x - 1);
        let whole = mask_row_cells(m, yy, upto_x);
        let pre = mask_row_cells(m, yy, upto_x - 1);
        assert forall|k: int| 0 <= k < whole.len() implies (#[trigger] whole[k]).0 < upto_x
            && whole[k].1 == yy by {
            if k < pre.len() {
                assert(whole[k] == pre[k]);
            } else {
                assert(whole[k] == (((upto_x - 1) as usize), (yy as usize)));
            }
        }
    }
}

/// Every offset a mask yields lies inside its bounding box.
pub proof fn lemma_mask_cells_in_box(m: Seq<Seq<bool>>, w: int, h: int)
    requires
        0 <= w <= usize::MAX,
        0 <= h <= usize::MAX,
    ensures
        forall|k: int|
            0 <= k < mask_cells(m, w, h).len() ==> {
                let c = #[trigger] mask_cells(m, w, h)[k];
                c.0 < w && c.1 < h
            },
{
    lemma_mask_cells_upto_in_box(m, w, h);
}

proof fn lemma_mask_cells_upto_in_box(m: Seq<Seq<bool>>, w: int, upto_y: int)
    requires
        0 <= w <= usize::MAX,
        upto_y <= usize::MAX,
    ensures
        forall|k: int|
            0 <= k < mask_cells_upto(m, w, upto_y).len() ==> {
                let c = #[trigger] mask_cells_upto(m, w, upto_y)[k];
                c.0 < w && c.1 < upto_y
            },
    decreases upto_y,
{
    if upto_y > 0 {
        lemma_mask_cells_upto_in_box(m, w, upto_y - 1);
        lemma_mask_row_cells_in_box(m, upto_y - 1, w);
        let whole = mask_cells_upto(m, w, upto_y);
        let pre = mask_cells_upto(m, w, upto_y - 1);
        let row = mask_row_cells(m, upto_y - 1, w);
        assert forall|k: int| 0 <= k < whole.len() implies (#[trigger] whole[k]).0 < w
            && whole[k].1 < upto_y by {
            if k < pre.len() {
                assert(whole[k] == pre[k]);
            } else {
                assert(whole[k] == row[k - pre.len()]);
            }
        }
    }
}

} // verus!
