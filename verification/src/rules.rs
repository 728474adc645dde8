//! The placement rules: cell ownership, grids, legality of a placement, and
//! what an accepted placement does to the board.
//!
//! Everything here is shared by the match engine and by the protocol-side
//! board model. A grid is viewed as a `Seq<Seq<Cell>>` indexed `[row][column]`
//! (that is, `[y][x]`); a piece shape is a sequence of `(x, y)` offsets.

use vstd::prelude::*;

verus! {

/// The largest number of board cells the library accepts. The bound is
/// forced by the `i32` positional evaluations: with `A` cells, the static
/// evaluation reaches up to `100 * A` (score difference) `+ 9 * A`
/// (compactness) `+ 27` (centre control), and `109 * 19_000_000 + 27 =
/// 2_071_000_027 < i32::MAX`, while one more million cells would overflow.
pub const MAX_CELLS: usize = 19000000;

/// One square of the board. "Old" cells are settled territory from earlier
/// turns; "New" cells were claimed by that player's most recent placement and
/// settle at the start of the player's next turn. Both count as owned.
#[derive(Clone, Copy, Debug, PartialEq, Eq, Structural)]
pub enum Cell {
    Empty,
    Player1Old,
    Player1New,
    Player2Old,
    Player2New,
}

/// The character a cell reads from in the wire format; anything unknown is
/// treated as an empty cell.
pub open spec fn cell_from_char(ch: char) -> Cell {
    if ch == '.' {
        Cell::Empty
    } else if ch == '@' {
        Cell::Player1Old
    } else if ch == 'a' {
        Cell::Player1New
    } else if ch == '$' {
        Cell::Player2Old
    } else if ch == 's' {
        Cell::Player2New
    } else {
        Cell::Empty
    }
}

/// The character a cell writes in the wire format.
pub open spec fn cell_to_char(c: Cell) -> char {
    match c {
        Cell::Empty => '.',
        Cell::Player1Old => '@',
        Cell::Player1New => 'a',
        Cell::Player2Old => '$',
        Cell::Player2New => 's',
    }
}

impl Cell {
    /// Reads a cell from its wire-format character; anything unknown is empty.
    pub fn from_char(ch: char) -> (r: Cell)
        ensures
            r == cell_from_char(ch),
    {
        match ch {
            '.' => Cell::Empty,
            '@' => Cell::Player1Old,
            'a' => Cell::Player1New,
            '$' => Cell::Player2Old,
            's' => Cell::Player2New,
            _ => Cell::Empty,
        }
    }

    /// The wire-format character of this cell.
    pub fn to_char(&self) -> (r: char)
        ensures
            r == cell_to_char(*self),
    {
        match self {
            Cell::Empty => '.',
            Cell::Player1Old => '@',
            Cell::Player1New => 'a',
            Cell::Player2Old => '$',
            Cell::Player2New => 's',
        }
    }

    /// Whether this cell belongs to the given player (settled or fresh).
    pub fn is_player(&self, player_id: u8) -> (r: bool)
        ensures
            r == (owned_by(*self, player_id) && owner_of(*self) != 0),
    {
        match (self, player_id) {
            (Cell::Player1Old, 1) => true,
            (Cell::Player1New, 1) => true,
            (Cell::Player2Old, 2) => true,
            (Cell::Player2New, 2) => true,
            _ => false,
        }
    }
}

/// Which player owns a cell: 0 for none, else 1 or 2.
pub open spec fn owner_of(c: Cell) -> int {
    match c {
        Cell::Empty => 0,
        Cell::Player1Old => 1,
        Cell::Player1New => 1,
        Cell::Player2Old => 2,
        Cell::Player2New => 2,
    }
}

pub open spec fn owned_by(c: Cell, player: u8) -> bool {
    owner_of(c) == player as int
}

pub open spec fn opponent_of(player: u8) -> u8 {
    if player == 1 {
        2
    } else {
        1
    }
}

/// A freshly placed cell of the given player.
pub open spec fn fresh_cell(player: u8) -> Cell {
    if player == 1 {
        Cell::Player1New
    } else {
        Cell::Player2New
    }
}

/// The cell after the given player's fresh territory settles: only that
/// player's fresh cells become settled; everything else is untouched.
pub open spec fn settled_cell(c: Cell, player: u8) -> Cell {
    if c == Cell::Player1New && player == 1 {
        Cell::Player1Old
    } else if c == Cell::Player2New && player == 2 {
        Cell::Player2Old
    } else {
        c
    }
}

/// The mathematical grid behind a vector-of-rows board.
pub open spec fn grid_view(b: Seq<Vec<Cell>>) -> Seq<Seq<Cell>> {
    Seq::new(b.len(), |y: int| b[y]@)
}

/// A rectangular grid of the given width and height.
pub open spec fn grid_wf(g: Seq<Seq<Cell>>, w: int, h: int) -> bool {
    &&& g.len() == h
    &&& forall|y: int| 0 <= y < h ==> (#[trigger] g[y]).len() == w
}

/// How many cells of a row the given player owns.
pub open spec fn row_count(row: Seq<Cell>, player: u8) -> int
    decreases row.len(),
{
    if row.len() == 0 {
        0
    } else {
        row_count(row.drop_last(), player) + if owned_by(row.last(), player) {
            1int
        } else {
            0int
        }
    }
}

/// How many cells of the whole grid the given player owns.
pub open spec fn grid_count(g: Seq<Seq<Cell>>, player: u8) -> int
    decreases g.len(),
{
    if g.len() == 0 {
        0
    } else {
        grid_count(g.drop_last(), player) + row_count(g.last(), player)
    }
}

pub proof fn lemma_row_count_bounds(row: Seq<Cell>, player: u8)
    ensures
        0 <= row_count(row, player) <= row.len(),
    decreases row.len(),
{
    if row.len() > 0 {
        lemma_row_count_bounds(row.drop_last(), player);
    }
}

pub proof fn lemma_grid_count_bounds(g: Seq<Seq<Cell>>, w: int, h: int, player: u8)
    requires
        grid_wf(g, w, h),
        0 <= w,
    ensures
        0 <= grid_count(g, player) <= h * w,
    decreases g.len(),
{
    if g.len() > 0 {
        assert(grid_wf(g.drop_last(), w, h - 1));
        lemma_grid_count_bounds(g.drop_last(), w, h - 1, player);
        lemma_row_count_bounds(g.last(), player);
        assert((h - 1) * w + w == h * w) by (nonlinear_arith);
    }
}

pub proof fn lemma_row_count_push(row: Seq<Cell>, c: Cell, player: u8)
    ensures
        row_count(row.push(c), player) == row_count(row, player) + if owned_by(c, player) {
            1int
        } else {
            0int
        },
{
    assert(row.push(c).drop_last() =~= row);
}

pub proof fn lemma_grid_count_push(g: Seq<Seq<Cell>>, row: Seq<Cell>, player: u8)
    ensures
        grid_count(g.push(row), player) == grid_count(g, player) + row_count(row, player),
{
    assert(g.push(row).drop_last() =~= g);
}

/// Every occupied piece cell, translated by `(x, y)`, lands inside the grid.
pub open spec fn shape_in_bounds(sh: Seq<(usize, usize)>, w: int, h: int, x: int, y: int) -> bool {
    forall|i: int|
        0 <= i < sh.len() ==> x + (#[trigger] sh[i]).0 < w && y + sh[i].1 < h
}

/// Some occupied piece cell lands on a cell owned by the given player's opponent.
pub open spec fn overlaps_opponent(
    g: Seq<Seq<Cell>>,
    sh: Seq<(usize, usize)>,
    x: int,
    y: int,
    player: u8,
) -> bool {
    exists|i: int|
        0 <= i < sh.len() && owned_by(
            g[y + (#[trigger] sh[i]).1][x + sh[i].0],
            opponent_of(player),
        )
}

/// How many occupied piece cells land on a cell the acting player already owns.
pub open spec fn overlap_count(
    g: Seq<Seq<Cell>>,
    sh: Seq<(usize, usize)>,
    x: int,
    y: int,
    player: u8,
) -> int
    decreases sh.len(),
{
    if sh.len() == 0 {
        0
    } else {
        overlap_count(g, sh.drop_last(), x, y, player) + if owned_by(
            g[y + sh.last().1][x + sh.last().0],
            player,
        ) {
            1int
        } else {
            0int
        }
    }
}

/// The placement rule. A placement is legal when every occupied cell is in
/// bounds, none lands on the opponent, and it overlaps the acting player's own
/// territory in exactly one cell. A player who owns no cell at all (possible
/// only under a custom starting layout) may place anywhere that is in bounds
/// and off the opponent.
pub open spec fn is_legal(
    g: Seq<Seq<Cell>>,
    w: int,
    h: int,
    sh: Seq<(usize, usize)>,
    x: int,
    y: int,
    player: u8,
) -> bool {
    &&& shape_in_bounds(sh, w, h, x, y)
    &&& !overlaps_opponent(g, sh, x, y, player)
    &&& (overlap_count(g, sh, x, y, player) == 1 || grid_count(g, player) == 0)
}

/// The grid after all of the given player's fresh cells settle; the other
/// player's fresh cells stay fresh.
pub open spec fn settle_grid(g: Seq<Seq<Cell>>, player: u8) -> Seq<Seq<Cell>> {
    Seq::new(g.len(), |y: int| Seq::new(g[y].len(), |x: int| settled_cell(g[y][x], player)))
}

/// Whether the shape translated by `(x, y)` covers the board cell `(cx, cy)`.
pub open spec fn shape_covers(sh: Seq<(usize, usize)>, x: int, y: int, cx: int, cy: int) -> bool {
    exists|i: int|
        0 <= i < sh.len() && x + (#[trigger] sh[i]).0 == cx && y + sh[i].1 == cy
}

/// The grid after marking every covered cell as fresh territory of `player`.
pub open spec fn place_on_grid(
    g: Seq<Seq<Cell>>,
    sh: Seq<(usize, usize)>,
    x: int,
    y: int,
    player: u8,
) -> Seq<Seq<Cell>> {
    Seq::new(
        g.len(),
        |cy: int|
            Seq::new(
                g[cy].len(),
                |cx: int|
                    if shape_covers(sh, x, y, cx, cy) {
                        fresh_cell(player)
                    } else {
                        g[cy][cx]
                    },
            ),
    )
}

/// What an accepted placement leaves on the board: the acting player's fresh
/// cells (and only theirs) settle first, then the piece is written as fresh
/// territory.
pub open spec fn apply_to_grid(
    g: Seq<Seq<Cell>>,
    sh: Seq<(usize, usize)>,
    x: int,
    y: int,
    player: u8,
) -> Seq<Seq<Cell>> {
    place_on_grid(settle_grid(g, player), sh, x, y, player)
}

/// Counting cells row-major never leaves the grid's area.
pub proof fn lemma_cell_index_bound(w: int, h: int, x: int, y: int)
    requires
        0 <= x < w,
        0 <= y < h,
    ensures
        y * w + x + 1 <= h * w,
        y * w + x + 1 <= w * h,
{
    assert(y * w + x + 1 <= h * w && y * w + x + 1 <= w * h) by (nonlinear_arith)
        requires
            0 <= x < w,
            0 <= y < h,
    ;
}

/// Applying a placement never changes the board's dimensions.
pub proof fn lemma_apply_wf(
    g: Seq<Seq<Cell>>,
    w: int,
    h: int,
    sh: Seq<(usize, usize)>,
    x: int,
    y: int,
    player: u8,
)
    requires
        grid_wf(g, w, h),
    ensures
        grid_wf(apply_to_grid(g, sh, x, y, player), w, h),
{
    assert forall|yy: int|
        0 <= yy < h implies (#[trigger] apply_to_grid(g, sh, x, y, player)[yy]).len() == w by {
        assert(settle_grid(g, player)[yy].len() == g[yy].len());
    }
}

/// No occupied offset is repeated: a shape is a set of cells.
pub open spec fn shape_distinct(sh: Seq<(usize, usize)>) -> bool {
    forall|i: int, j: int| 0 <= i < j < sh.len() ==> #[trigger] sh[i] !== #[trigger] sh[j]
}

proof fn lemma_row_count_pointwise(r1: Seq<Cell>, r2: Seq<Cell>, player: u8)
    requires
        r1.len() == r2.len(),
        forall|x: int| 0 <= x < r1.len() ==> owned_by(#[trigger] r2[x], player) == owned_by(r1[x], player),
    ensures
        row_count(r2, player) == row_count(r1, player),
    decreases r1.len(),
{
    if r1.len() > 0 {
        lemma_row_count_pointwise(r1.drop_last(), r2.drop_last(), player);
    }
}

proof fn lemma_grid_count_pointwise(g1: Seq<Seq<Cell>>, g2: Seq<Seq<Cell>>, player: u8)
    requires
        g1.len() == g2.len(),
        forall|y: int| 0 <= y < g1.len() ==> (#[trigger] g2[y]).len() == g1[y].len(),
        forall|y: int, x: int|
            0 <= y < g1.len() && 0 <= x < g1[y].len() ==> owned_by(#[trigger] g2[y][x], player)
                == owned_by(g1[y][x], player),
    ensures
        grid_count(g2, player) == grid_count(g1, player),
    decreases g1.len(),
{
    if g1.len() > 0 {
        lemma_grid_count_pointwise(g1.drop_last(), g2.drop_last(), player);
        lemma_row_count_pointwise(g1.last(), g2.last(), player);
    }
}

/// Settling changes only the temporal marker of a cell, never its owner, so
/// it leaves every player's cell count alone.
pub proof fn lemma_settle_grid_count(g: Seq<Seq<Cell>>, settling: u8, counted: u8)
    ensures
        grid_count(settle_grid(g, settling), counted) == grid_count(g, counted),
{
    lemma_grid_count_pointwise(g, settle_grid(g, settling), counted);
}

proof fn lemma_overlap_count_pointwise(
    g1: Seq<Seq<Cell>>,
    g2: Seq<Seq<Cell>>,
    sh: Seq<(usize, usize)>,
    x: int,
    y: int,
    player: u8,
)
    requires
        forall|i: int|
            0 <= i < sh.len() ==> owned_by(
                #[trigger] g2[y + sh[i].1][x + sh[i].0],
                player,
            ) == owned_by(g1[y + sh[i].1][x + sh[i].0], player),
    ensures
        overlap_count(g2, sh, x, y, player) == overlap_count(g1, sh, x, y, player),
    decreases sh.len(),
{
    if sh.len() > 0 {
        lemma_overlap_count_pointwise(g1, g2, sh.drop_last(), x, y, player);
    }
}

proof fn lemma_overlap_count_zero(
    g: Seq<Seq<Cell>>,
    sh: Seq<(usize, usize)>,
    x: int,
    y: int,
    player: u8,
)
    ensures
        (overlap_count(g, sh, x, y, player) == 0) <==> (forall|i: int|
            0 <= i < sh.len() ==> !owned_by(g[y + (#[trigger] sh[i]).1][x + sh[i].0], player)),
    decreases sh.len(),
{
    if sh.len() > 0 {
        lemma_overlap_count_zero(g, sh.drop_last(), x, y, player);
        lemma_overlap_count_nonneg(g, sh, x, y, player);
        lemma_overlap_count_nonneg(g, sh.drop_last(), x, y, player);
        assert(forall|i: int| 0 <= i < sh.len() - 1 ==> #[trigger] sh[i] == sh.drop_last()[i]);
    }
}

proof fn lemma_overlap_count_nonneg(
    g: Seq<Seq<Cell>>,
    sh: Seq<(usize, usize)>,
    x: int,
    y: int,
    player: u8,
)
    ensures
        0 <= overlap_count(g, sh, x, y, player) <= sh.len(),
    decreases sh.len(),
{
    if sh.len() > 0 {
        lemma_overlap_count_nonneg(g, sh.drop_last(), x, y, player);
    }
}

proof fn lemma_row_count_update(row: Seq<Cell>, x: int, v: Cell, player: u8)
    requires
        0 <= x < row.len(),
    ensures
        row_count(row.update(x, v), player) == row_count(row, player) - (if owned_by(
            row[x],
            player,
        ) {
            1int
        } else {
            0int
        }) + (if owned_by(v, player) {
            1int
        } else {
            0int
        }),
    decreases row.len(),
{
    if x == row.len() - 1 {
        assert(row.update(x, v).drop_last() =~= row.drop_last());
    } else {
        assert(row.update(x, v).drop_last() =~= row.drop_last().update(x, v));
        lemma_row_count_update(row.drop_last(), x, v, player);
    }
}

proof fn lemma_grid_count_update(g: Seq<Seq<Cell>>, yy: int, xx: int, v: Cell, player: u8)
    requires
        0 <= yy < g.len(),
        0 <= xx < g[yy].len(),
    ensures
        grid_count(g.update(yy, g[yy].update(xx, v)), player) == grid_count(g, player) - (if
        owned_by(g[yy][xx], player) {
            1int
        } else {
            0int
        }) + (if owned_by(v, player) {
            1int
        } else {
            0int
        }),
    decreases g.len(),
{
    let g2 = g.update(yy, g[yy].update(xx, v));
    if yy == g.len() - 1 {
        assert(g2.drop_last() =~= g.drop_last());
        lemma_row_count_update(g.last(), xx, v, player);
    } else {
        assert(g2.drop_last() =~= g.drop_last().update(yy, g[yy].update(xx, v)));
        lemma_grid_count_update(g.drop_last(), yy, xx, v, player);
    }
}

proof fn lemma_place_unfold(
    g: Seq<Seq<Cell>>,
    sh: Seq<(usize, usize)>,
    x: int,
    y: int,
    player: u8,
)
    requires
        sh.len() > 0,
        0 <= y + sh.last().1 < g.len(),
        0 <= x + sh.last().0 < g[y + sh.last().1].len(),
        shape_distinct(sh),
    ensures
        place_on_grid(g, sh, x, y, player) == place_on_grid(g, sh.drop_last(), x, y, player).update(
            y + sh.last().1,
            place_on_grid(g, sh.drop_last(), x, y, player)[y + sh.last().1].update(
                x + sh.last().0,
                fresh_cell(player),
            ),
        ),
{
    let cy0 = y + sh.last().1;
    let cx0 = x + sh.last().0;
    let lhs = place_on_grid(g, sh, x, y, player);
    let prev = place_on_grid(g, sh.drop_last(), x, y, player);
    let rhs = prev.update(cy0, prev[cy0].update(cx0, fresh_cell(player)));
    assert forall|cy: int, cx: int|
        0 <= cy < g.len() && 0 <= cx < g[cy].len() implies lhs[cy][cx] == rhs[cy][cx] by {
        if cy == cy0 && cx == cx0 {
            assert(shape_covers(sh, x, y, cx, cy)) by {
                assert(x + sh[sh.len() - 1].0 == cx && y + sh[sh.len() - 1].1 == cy);
            }
        } else {
            if shape_covers(sh.drop_last(), x, y, cx, cy) {
                let i = choose|i: int|
                    0 <= i < sh.drop_last().len() && x + sh.drop_last()[i].0 == cx && y
                        + sh.drop_last()[i].1 == cy;
                assert(x + sh[i].0 == cx && y + sh[i].1 == cy);
            }
            if shape_covers(sh, x, y, cx, cy) {
                let i = choose|i: int| 0 <= i < sh.len() && x + sh[i].0 == cx && y + sh[i].1 == cy;
                assert(i < sh.len() - 1);
                assert(sh.drop_last()[i] == sh[i]);
                assert(shape_covers(sh.drop_last(), x, y, cx, cy));
            }
        }
    }
    assert(lhs =~~= rhs);
}

proof fn lemma_place_count(
    g: Seq<Seq<Cell>>,
    w: int,
    h: int,
    sh: Seq<(usize, usize)>,
    x: int,
    y: int,
    player: u8,
    q: u8,
)
    requires
        grid_wf(g, w, h),
        shape_in_bounds(sh, w, h, x, y),
        0 <= x,
        0 <= y,
        shape_distinct(sh),
        player == 1 || player == 2,
    ensures
        grid_count(place_on_grid(g, sh, x, y, player), q) == grid_count(g, q) - overlap_count(
            g,
            sh,
            x,
            y,
            q,
        ) + (if q == player {
            sh.len() as int
        } else {
            0int
        }),
    decreases sh.len(),
{
    if sh.len() == 0 {
        assert(place_on_grid(g, sh, x, y, player) =~~= g);
    } else {
        let sh2 = sh.drop_last();
        let cy0 = y + sh.last().1;
        let cx0 = x + sh.last().0;
        assert(shape_in_bounds(sh2, w, h, x, y)) by {
            assert(forall|i: int| 0 <= i < sh2.len() ==> sh2[i] == sh[i]);
        }
        lemma_place_count(g, w, h, sh2, x, y, player, q);
        let prev = place_on_grid(g, sh2, x, y, player);
        assert(0 <= cy0 < g.len() && 0 <= cx0 < g[cy0].len());
        lemma_place_unfold(g, sh, x, y, player);
        assert(prev[cy0].len() == g[cy0].len());
        lemma_grid_count_update(prev, cy0, cx0, fresh_cell(player), q);
        assert(!shape_covers(sh2, x, y, cx0, cy0)) by {
            if shape_covers(sh2, x, y, cx0, cy0) {
                let i = choose|i: int|
                    0 <= i < sh2.len() && x + sh2[i].0 == cx0 && y + sh2[i].1 == cy0;
                assert(sh[i] == sh2[i]);
                assert(sh[i].0 == sh.last().0 && sh[i].1 == sh.last().1);
                assert(sh[i] !== sh[sh.len() - 1]);
            }
        }
        assert(prev[cy0][cx0] == g[cy0][cx0]);
    }
}

/// What an accepted placement does to the two scores. When the acting player
/// already owns at least one cell, a legal placement settles into exactly one
/// owned cell, so the player gains one cell fewer than the piece holds, and
/// the opponent's holdings are untouched.
pub proof fn lemma_apply_score_change(
    g: Seq<Seq<Cell>>,
    w: int,
    h: int,
    sh: Seq<(usize, usize)>,
    x: int,
    y: int,
    player: u8,
)
    requires
        grid_wf(g, w, h),
        player == 1 || player == 2,
        0 <= x,
        0 <= y,
        shape_distinct(sh),
        is_legal(g, w, h, sh, x, y, player),
        grid_count(g, player) >= 1,
    ensures
        grid_count(apply_to_grid(g, sh, x, y, player), player) == grid_count(g, player) + sh.len()
            - 1,
        grid_count(apply_to_grid(g, sh, x, y, player), opponent_of(player)) == grid_count(
            g,
            opponent_of(player),
        ),
{
    let opp = opponent_of(player);
    let s = settle_grid(g, player);
    assert(grid_wf(s, w, h));
    lemma_settle_grid_count(g, player, player);
    lemma_settle_grid_count(g, player, opp);
    lemma_overlap_count_pointwise(g, s, sh, x, y, player);
    lemma_overlap_count_pointwise(g, s, sh, x, y, opp);
    lemma_place_count(s, w, h, sh, x, y, player, player);
    lemma_place_count(s, w, h, sh, x, y, player, opp);
    lemma_overlap_count_zero(g, sh, x, y, opp);
    assert(overlap_count(g, sh, x, y, opp) == 0) by {
        assert(forall|i: int|
            0 <= i < sh.len() ==> !owned_by(g[y + (#[trigger] sh[i]).1][x + sh[i].0], opp));
    }
}

/// How many cells of a rectangular board the given player owns.
pub fn count_owned_cells(board: &Vec<Vec<Cell>>, width: usize, height: usize, player: u8) -> (r:
    u32)
    requires
        grid_wf(grid_view(board@), width as int, height as int),
        width * height <= MAX_CELLS,
        player == 1 || player == 2,
    ensures
        r as int == grid_count(grid_view(board@), player),
{
    let ghost g = grid_view(board@);
    let mut count: u32 = 0;
    let mut y: usize = 0;
    while y < height
        invariant
            y <= height,
            count as int == grid_count(g.subrange(0, y as int), player),
            count <= y * width,
        decreases height - y,
    {
        let ghost row = g[y as int];
        proof {
            assert(g[y as int] == board@[y as int]@);
        }
        let mut x: usize = 0;
        while x < width
            invariant
                x <= width,
                y < height,
                count as int == grid_count(g.subrange(0, y as int), player) + row_count(
                    row.subrange(0, x as int),
                    player,
                ),
                count <= y * width + x,
            decreases width - x,
        {
            let c = board[y][x];
            proof {
                lemma_cell_index_bound(width as int, height as int, x as int, y as int);
                assert(row.subrange(0, x + 1) =~= row.subrange(0, x as int).push(row[x as int]));
                lemma_row_count_push(row.subrange(0, x as int), row[x as int], player);
            }
            if c.is_player(player) {
                count += 1;
            }
            x += 1;
        }
        proof {
            assert(row.subrange(0, width as int) =~= row);
            assert(g.subrange(0, y + 1) =~= g.subrange(0, y as int).push(row));
            lemma_grid_count_push(g.subrange(0, y as int), row, player);
            assert((y + 1) * width == y * width + width) by (nonlinear_arith);
        }
        y += 1;
    }
    proof {
        assert(g.subrange(0, height as int) =~= g);
    }
    count
}

/// Whether the given player may place a shape anchored at `(x, y)` on this
/// board: the executable form of `is_legal`.
pub fn check_placement(
    board: &Vec<Vec<Cell>>,
    width: usize,
    height: usize,
    shape: &Vec<(usize, usize)>,
    x: usize,
    y: usize,
    player: u8,
) -> (r: bool)
    requires
        grid_wf(grid_view(board@), width as int, height as int),
        width * height <= MAX_CELLS,
        player == 1 || player == 2,
    ensures
        r == is_legal(
            grid_view(board@),
            width as int,
            height as int,
            shape@,
            x as int,
            y as int,
            player,
        ),
{
    let ghost g = grid_view(board@);
    let ghost sh = shape@;
    let ghost w = width as int;
    let ghost h = height as int;
    let opp: u8 = if player == 1 {
        2
    } else {
        1
    };
    let mut overlap: usize = 0;
    let mut i: usize = 0;
    while i < shape.len()
        invariant
            i <= sh.len(),
            overlap <= i,
            overlap as int == overlap_count(g, sh.subrange(0, i as int), x as int, y as int, player),
            forall|k: int| 0 <= k < i ==> x + (#[trigger] sh[k]).0 < w && y + sh[k].1 < h,
            forall|k: int|
                0 <= k < i ==> !owned_by(g[y + (#[trigger] sh[k]).1][x + sh[k].0], opp),
        decreases sh.len() - i,
    {
        let (px, py) = shape[i];
        if px >= width || x >= width - px || py >= height || y >= height - py {
            proof {
                assert(!(x + sh[i as int].0 < w && y + sh[i as int].1 < h));
            }
            return false;
        }
        let ax = x + px;
        let ay = y + py;
        proof {
            assert(g[ay as int] == board@[ay as int]@);
            assert(g[ay as int].len() == w);
        }
        let c = board[ay][ax];
        proof {
            assert(sh.subrange(0, i + 1).drop_last() =~= sh.subrange(0, i as int));
            assert(sh.subrange(0, i + 1).last() == sh[i as int]);
        }
        if c.is_player(player) {
            overlap += 1;
        } else if c.is_player(opp) {
            proof {
                assert(owned_by(g[y + sh[i as int].1][x + sh[i as int].0], opponent_of(player)));
            }
            return false;
        }
        i += 1;
    }
    proof {
        assert(sh.subrange(0, sh.len() as int) =~= sh);
        assert(shape_in_bounds(sh, w, h, x as int, y as int));
        assert(!overlaps_opponent(g, sh, x as int, y as int, player));
    }
    if overlap == 1 {
        return true;
    }
    count_owned_cells(board, width, height, player) == 0
}

/// Settles a rectangular board in place for one player: that player's fresh
/// cells become settled territory; the other player's stay fresh.
pub fn settle_board(board: &mut Vec<Vec<Cell>>, width: usize, height: usize, player: u8)
    requires
        grid_wf(grid_view(old(board)@), width as int, height as int),
    ensures
        grid_view(final(board)@) == settle_grid(grid_view(old(board)@), player),
        grid_wf(grid_view(final(board)@), width as int, height as int),
{
    let ghost g0 = grid_view(old(board)@);
    let mut y: usize = 0;
    while y < height
        invariant
            y <= height,
            board@.len() == height,
            forall|yy: int| 0 <= yy < height ==> (#[trigger] grid_view(board@)[yy]).len() == width,
            forall|yy: int, xx: int|
                0 <= yy < height && 0 <= xx < width ==> #[trigger] grid_view(board@)[yy][xx] == (
                if yy < y {
                    settled_cell(g0[yy][xx], player)
                } else {
                    g0[yy][xx]
                }),
        decreases height - y,
    {
        let mut x: usize = 0;
        while x < width
            invariant
                x <= width,
                y < height,
                board@.len() == height,
                forall|yy: int|
                    0 <= yy < height ==> (#[trigger] grid_view(board@)[yy]).len() == width,
                forall|yy: int, xx: int|
                    0 <= yy < height && 0 <= xx < width ==> #[trigger] grid_view(board@)[yy][xx]
                        == (if yy < y || (yy == y && xx < x) {
                        settled_cell(g0[yy][xx], player)
                    } else {
                        g0[yy][xx]
                    }),
            decreases width - x,
        {
            proof {
                assert(grid_view(board@)[y as int] == board@[y as int]@);
            }
            let ghost gprev = grid_view(board@);
            let c = board[y][x];
            match c {
                Cell::Player1New => {
                    if player == 1 {
                        board[y][x] = Cell::Player1Old;
                    }
                },
                Cell::Player2New => {
                    if player == 2 {
                        board[y][x] = Cell::Player2Old;
                    }
                },
                _ => {},
            }
            proof {
                assert forall|yy: int|
                    0 <= yy < height implies (#[trigger] grid_view(board@)[yy]).len() == width by {
                    assert(gprev[yy].len() == width);
                    if yy != y as int {
                        assert(grid_view(board@)[yy] == gprev[yy]);
                    } else {
                        assert(grid_view(board@)[yy].len() == gprev[yy].len());
                    }
                }
                assert forall|yy: int, xx: int|
                    0 <= yy < height && 0 <= xx < width implies #[trigger] grid_view(board@)[yy][xx]
                    == (if yy < y || (yy == y && xx < x + 1) {
                    settled_cell(g0[yy][xx], player)
                } else {
                    g0[yy][xx]
                }) by {
                    assert(gprev[yy].len() == width);
                    if !(yy == y as int && xx == x as int) {
                        assert(grid_view(board@)[yy][xx] == gprev[yy][xx]);
                    }
                }
            }
            x += 1;
        }
        y += 1;
    }
    proof {
        assert(grid_view(board@) =~~= settle_grid(g0, player));
    }
}

/// Ownership only grows: an accepted placement never shrinks the acting
/// player's holdings and never touches the opponent's, so the total of owned
/// cells never decreases across turns.
pub proof fn lemma_apply_monotone(
    g: Seq<Seq<Cell>>,
    w: int,
    h: int,
    sh: Seq<(usize, usize)>,
    x: int,
    y: int,
    player: u8,
)
    requires
        grid_wf(g, w, h),
        player == 1 || player == 2,
        0 <= x,
        0 <= y,
        shape_distinct(sh),
        is_legal(g, w, h, sh, x, y, player),
    ensures
        grid_count(apply_to_grid(g, sh, x, y, player), player) >= grid_count(g, player),
        grid_count(apply_to_grid(g, sh, x, y, player), opponent_of(player)) == grid_count(
            g,
            opponent_of(player),
        ),
{
    let opp = opponent_of(player);
    let s = settle_grid(g, player);
    assert(grid_wf(s, w, h));
    lemma_settle_grid_count(g, player, player);
    lemma_settle_grid_count(g, player, opp);
    lemma_overlap_count_pointwise(g, s, sh, x, y, player);
    lemma_overlap_count_pointwise(g, s, sh, x, y, opp);
    lemma_place_count(s, w, h, sh, x, y, player, player);
    lemma_place_count(s, w, h, sh, x, y, player, opp);
    lemma_overlap_count_nonneg(g, sh, x, y, player);
    lemma_overlap_count_zero(g, sh, x, y, opp);
    assert(overlap_count(g, sh, x, y, opp) == 0) by {
        assert(forall|i: int|
            0 <= i < sh.len() ==> !owned_by(g[y + (#[trigger] sh[i]).1][x + sh[i].0], opp));
    }
}

/// The legal anchors `(x, yy)` with `x < upto_x`, in order of increasing `x`.
pub open spec fn row_legal_positions(
    g: Seq<Seq<Cell>>,
    w: int,
    h: int,
    sh: Seq<(usize, usize)>,
    player: u8,
    yy: int,
    upto_x: int,
) -> Seq<(usize, usize)>
    decreases upto_x,
{
    if upto_x <= 0 {
        Seq::empty()
    } else {
        row_legal_positions(g, w, h, sh, player, yy, upto_x - 1) + if is_legal(
            g,
            w,
            h,
            sh,
            upto_x - 1,
            yy,
            player,
        ) {
            seq![(((upto_x - 1) as usize), (yy as usize))]
        } else {
            Seq::empty()
        }
    }
}

/// The legal anchors in rows before `upto_y`, row-major.
pub open spec fn legal_positions_upto(
    g: Seq<Seq<Cell>>,
    w: int,
    h: int,
    sh: Seq<(usize, usize)>,
    player: u8,
    upto_y: int,
) -> Seq<(usize, usize)>
    decreases upto_y,
{
    if upto_y <= 0 {
        Seq::empty()
    } else {
        legal_positions_upto(g, w, h, sh, player, upto_y - 1) + row_legal_positions(
            g,
            w,
            h,
            sh,
            player,
            upto_y - 1,
            w,
        )
    }
}

/// Every legal anchor position on the board, enumerated row-major: the order
/// is part of the contract, since "pick the first" policies depend on it.
pub open spec fn legal_positions(
    g: Seq<Seq<Cell>>,
    w: int,
    h: int,
    sh: Seq<(usize, usize)>,
    player: u8,
) -> Seq<(usize, usize)> {
    legal_positions_upto(g, w, h, sh, player, h)
}

proof fn lemma_row_legal_positions_props(
    g: Seq<Seq<Cell>>,
    w: int,
    h: int,
    sh: Seq<(usize, usize)>,
    player: u8,
    yy: int,
    upto_x: int,
)
    requires
        0 <= upto_x <= usize::MAX,
        0 <= yy <= usize::MAX,
    ensures
        forall|k: int|
            0 <= k < row_legal_positions(g, w, h, sh, player, yy, upto_x).len() ==> {
                let m = #[trigger] row_legal_positions(g, w, h, sh, player, yy, upto_x)[k];
                m.1 == yy && m.0 < upto_x && is_legal(g, w, h, sh, m.0 as int, yy, player)
            },
        forall|xx: int|
            0 <= xx < upto_x && is_legal(g, w, h, sh, xx, yy, player) ==> row_legal_positions(
                g,
                w,
                h,
                sh,
                player,
                yy,
                upto_x,
            ).contains(((xx as usize), (yy as usize))),
    decreases upto_x,
{
    if upto_x > 0 {
        lemma_row_legal_positions_props(g, w, h, sh, player, yy, upto_x - 1);
        let prefix = row_legal_positions(g, w, h, sh, player, yy, upto_x - 1);
        let whole = row_legal_positions(g, w, h, sh, player, yy, upto_x);
        assert forall|xx: int|
            0 <= xx < upto_x && is_legal(g, w, h, sh, xx, yy, player) implies whole.contains(
            ((xx as usize), (yy as usize)),
        ) by {
            if xx < upto_x - 1 {
                let i = choose|i: int|
                    0 <= i < prefix.len() && prefix[i] == ((xx as usize), (yy as usize));
                assert(whole[i] == ((xx as usize), (yy as usize)));
            } else {
                assert(whole[whole.len() - 1] == ((xx as usize), (yy as usize)));
            }
        }
    }
}

proof fn lemma_legal_positions_upto_props(
    g: Seq<Seq<Cell>>,
    w: int,
    h: int,
    sh: Seq<(usize, usize)>,
    player: u8,
    upto_y: int,
)
    requires
        0 <= upto_y <= usize::MAX,
        0 <= w <= usize::MAX,
    ensures
        forall|k: int|
            0 <= k < legal_positions_upto(g, w, h, sh, player, upto_y).len() ==> {
                let m = #[trigger] legal_positions_upto(g, w, h, sh, player, upto_y)[k];
                m.0 < w && m.1 < upto_y && is_legal(g, w, h, sh, m.0 as int, m.1 as int, player)
            },
        forall|xx: int, yy: int|
            0 <= xx < w && 0 <= yy < upto_y && is_legal(g, w, h, sh, xx, yy, player)
                ==> legal_positions_upto(g, w, h, sh, player, upto_y).contains(
                ((xx as usize), (yy as usize)),
            ),
    decreases upto_y,
{
    if upto_y > 0 {
        lemma_legal_positions_upto_props(g, w, h, sh, player, upto_y - 1);
        lemma_row_legal_positions_props(g, w, h, sh, player, upto_y - 1, w);
        let prefix = legal_positions_upto(g, w, h, sh, player, upto_y - 1);
        let row = row_legal_positions(g, w, h, sh, player, upto_y - 1, w);
        let whole = legal_positions_upto(g, w, h, sh, player, upto_y);
        assert forall|xx: int, yy: int|
            0 <= xx < w && 0 <= yy < upto_y && is_legal(g, w, h, sh, xx, yy, player) implies
            whole.contains(((xx as usize), (yy as usize))) by {
            if yy < upto_y - 1 {
                let i = choose|i: int|
                    0 <= i < prefix.len() && prefix[i] == ((xx as usize), (yy as usize));
                assert(whole[i] == ((xx as usize), (yy as usize)));
            } else {
                let i = choose|i: int|
                    0 <= i < row.len() && row[i] == ((xx as usize), (yy as usize));
                assert(whole[prefix.len() + i] == ((xx as usize), (yy as usize)));
            }
        }
    }
}

/// Enumeration is sound and complete: a position is in `legal_positions` if
/// and only if it is a legal placement, and every listed anchor lies on the
/// board.
pub proof fn lemma_legal_positions_iff_legal(
    g: Seq<Seq<Cell>>,
    w: int,
    h: int,
    sh: Seq<(usize, usize)>,
    player: u8,
)
    requires
        0 <= w <= usize::MAX,
        0 <= h <= usize::MAX,
    ensures
        forall|k: int|
            0 <= k < legal_positions(g, w, h, sh, player).len() ==> {
                let m = #[trigger] legal_positions(g, w, h, sh, player)[k];
                m.0 < w && m.1 < h && is_legal(g, w, h, sh, m.0 as int, m.1 as int, player)
            },
        forall|xx: int, yy: int|
            0 <= xx < w && 0 <= yy < h && is_legal(g, w, h, sh, xx, yy, player) ==> legal_positions(
                g,
                w,
                h,
                sh,
                player,
            ).contains(((xx as usize), (yy as usize))),
{
    lemma_legal_positions_upto_props(g, w, h, sh, player, h);
}

/// A placement at a position that the enumeration does not list is illegal,
/// so applying it leaves the board untouched.
pub proof fn lemma_unlisted_position_is_illegal(
    g: Seq<Seq<Cell>>,
    w: int,
    h: int,
    sh: Seq<(usize, usize)>,
    player: u8,
    x: usize,
    y: usize,
)
    requires
        0 <= w <= usize::MAX,
        0 <= h <= usize::MAX,
        x < w,
        y < h,
        !legal_positions(g, w, h, sh, player).contains((x, y)),
    ensures
        !is_legal(g, w, h, sh, x as int, y as int, player),
{
    lemma_legal_positions_iff_legal(g, w, h, sh, player);
}

} // verus!
