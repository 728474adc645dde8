//! The decision engines: a uniform-random policy, a single-ply greedy
//! heuristic, and a depth-limited minimax search. Every candidate any of them
//! considers comes from the engine's legal-move enumeration, so each either
//! returns a legal position for the current player or reports that none
//! exists.

use vstd::prelude::*;
use crate::engine::{GameState, MAX_CELLS, copy_grid};

pub mod evaluation;
pub mod strategy;

pub use evaluation::Evaluator;
pub use strategy::{FillterAI, Strategy};

use crate::piece::Piece;
use crate::rules::{
    Cell, apply_to_grid, grid_count, grid_wf, is_legal, legal_positions,
    lemma_legal_positions_iff_legal, opponent_of, owned_by, shape_in_bounds,
};

verus! {

/// `1` when the cell `(xx, yy)` lies on the board and belongs to `q`.
pub open spec fn owned_at(g: Seq<Seq<Cell>>, w: int, h: int, xx: int, yy: int, q: u8) -> int {
    if 0 <= xx < w && 0 <= yy < h && owned_by(g[yy][xx], q) {
        1int
    } else {
        0int
    }
}

pub open spec fn abs_diff(a: int, b: int) -> int {
    if a >= b {
        a - b
    } else {
        b - a
    }
}

/// How many cells of `q` lie in the first `k` offsets (row-major, from
/// `(-1, -1)`) of the 3 by 3 window around `(cx, cy)`, the centre included.
pub open spec fn window_count_upto(
    g: Seq<Seq<Cell>>,
    w: int,
    h: int,
    cx: int,
    cy: int,
    q: u8,
    k: int,
) -> int
    decreases k,
{
    if k <= 0 {
        0
    } else {
        window_count_upto(g, w, h, cx, cy, q, k - 1) + owned_at(
            g,
            w,
            h,
            cx + (k - 1) % 3 - 1,
            cy + (k - 1) / 3 - 1,
            q,
        )
    }
}

/// How many cells of `q` lie in the 3 by 3 window around `(cx, cy)`.
pub open spec fn window_count(g: Seq<Seq<Cell>>, w: int, h: int, cx: int, cy: int, q: u8) -> int {
    window_count_upto(g, w, h, cx, cy, q, 9)
}

/// The opponent cells within one step (including diagonals) of any occupied
/// piece cell, summed cell by cell: the greedy policy's blocking term.
pub open spec fn nearby_count(
    g: Seq<Seq<Cell>>,
    w: int,
    h: int,
    sh: Seq<(usize, usize)>,
    x: int,
    y: int,
    q: u8,
) -> int
    decreases sh.len(),
{
    if sh.len() == 0 {
        0
    } else {
        nearby_count(g, w, h, sh.drop_last(), x, y, q) + window_count(
            g,
            w,
            h,
            x + sh.last().0,
            y + sh.last().1,
            q,
        )
    }
}

/// The Manhattan distance from `(x, y)` to the board centre.
pub open spec fn center_distance(w: int, h: int, x: int, y: int) -> int {
    abs_diff(x, w / 2) + abs_diff(y, h / 2)
}

/// The greedy policy's score for anchoring the piece at `(x, y)`: ten points
/// per piece cell, minus the distance to the centre, plus five points per
/// opponent cell adjacent to the placement.
pub open spec fn greedy_eval(
    g: Seq<Seq<Cell>>,
    w: int,
    h: int,
    sh: Seq<(usize, usize)>,
    x: int,
    y: int,
    p: u8,
) -> int {
    10 * sh.len() - center_distance(w, h, x, y) + 5 * nearby_count(
        g,
        w,
        h,
        sh,
        x,
        y,
        opponent_of(p),
    )
}

/// The greedy choice among `cands`: the highest `greedy_eval` score, the
/// earliest candidate on a tie.
pub open spec fn greedy_pick(
    g: Seq<Seq<Cell>>,
    w: int,
    h: int,
    sh: Seq<(usize, usize)>,
    p: u8,
    cands: Seq<(usize, usize)>,
) -> (usize, usize)
    decreases cands.len(),
{
    if cands.len() <= 1 {
        cands[0]
    } else {
        let prev = greedy_pick(g, w, h, sh, p, cands.drop_last());
        let cand = cands.last();
        if greedy_eval(g, w, h, sh, cand.0 as int, cand.1 as int, p) > greedy_eval(
            g,
            w,
            h,
            sh,
            prev.0 as int,
            prev.1 as int,
            p,
        ) {
            cand
        } else {
            prev
        }
    }
}

/// The greedy choice is one of the candidates it chose from.
pub proof fn lemma_greedy_pick_in(
    g: Seq<Seq<Cell>>,
    w: int,
    h: int,
    sh: Seq<(usize, usize)>,
    p: u8,
    cands: Seq<(usize, usize)>,
)
    requires
        cands.len() >= 1,
    ensures
        cands.contains(greedy_pick(g, w, h, sh, p, cands)),
    decreases cands.len(),
{
    if cands.len() > 1 {
        lemma_greedy_pick_in(g, w, h, sh, p, cands.drop_last());
        let prev = greedy_pick(g, w, h, sh, p, cands.drop_last());
        let k = choose|k: int| 0 <= k < cands.drop_last().len() && cands.drop_last()[k] == prev;
        assert(cands[k] == prev);
    }
}

/// No candidate scores strictly better than the greedy choice.
pub proof fn lemma_greedy_pick_maximal(
    g: Seq<Seq<Cell>>,
    w: int,
    h: int,
    sh: Seq<(usize, usize)>,
    p: u8,
    cands: Seq<(usize, usize)>,
)
    requires
        cands.len() >= 1,
    ensures
        forall|k: int|
            0 <= k < cands.len() ==> greedy_eval(
                g,
                w,
                h,
                sh,
                (#[trigger] cands[k]).0 as int,
                cands[k].1 as int,
                p,
            ) <= greedy_eval(
                g,
                w,
                h,
                sh,
                greedy_pick(g, w, h, sh, p, cands).0 as int,
                greedy_pick(g, w, h, sh, p, cands).1 as int,
                p,
            ),
    decreases cands.len(),
{
    if cands.len() > 1 {
        lemma_greedy_pick_maximal(g, w, h, sh, p, cands.drop_last());
        assert(forall|k: int| 0 <= k < cands.len() - 1 ==> cands.drop_last()[k] == #[trigger] cands[k]);
    }
}

/// Relies on `thread_rng` + `gen_range` (rand): the draw lands below `n`;
/// nothing more is assumed of a thread-local random draw.
#[verifier::external_body]
fn random_below(n: usize) -> (r: usize)
    requires
        n > 0,
    ensures
        r < n,
{
    rand::Rng::gen_range(&mut rand::thread_rng(), 0..n)
}

/// How many cells of `q` lie in the 3 by 3 window around `(cx, cy)`.
fn count_window(game: &GameState, cx: usize, cy: usize, q: u8) -> (r: u32)
    requires
        game.wf(),
        q == 1 || q == 2,
        cx < game.width,
        cy < game.height,
    ensures
        r as int == window_count(
            game.grid(),
            game.width as int,
            game.height as int,
            cx as int,
            cy as int,
            q,
        ),
        r <= 9,
{
    let ghost g = game.grid();
    let ghost w = game.width as int;
    let ghost h = game.height as int;
    proof {
        assert(game.width <= MAX_CELLS && game.height <= MAX_CELLS) by (nonlinear_arith)
            requires
                game.width * game.height <= MAX_CELLS,
                1 <= game.width,
                1 <= game.height,
        ;
    }
    let mut r: u32 = 0;
    let mut k: usize = 0;
    while k < 9
        invariant
            k <= 9,
            r <= k,
            r as int == window_count_upto(g, w, h, cx as int, cy as int, q, k as int),
        decreases 9 - k,
    {
        let dx = (k % 3) as i64 - 1;
        let dy = (k / 3) as i64 - 1;
        let xx = cx as i64 + dx;
        let yy = cy as i64 + dy;
        if 0 <= xx && xx < game.width as i64 && 0 <= yy && yy < game.height as i64 {
            let xi = xx as usize;
            let yi = yy as usize;
            proof {
                assert(game.grid()[yi as int] == game.board@[yi as int]@);
            }
            if game.board[yi][xi].is_player(q) {
                r += 1;
            }
        }
        k += 1;
    }
    r
}

/// Picks uniformly at random among the legal placements.
pub struct RandomAI {
    name: String,
}

impl RandomAI {
    /// The stored display name is fixed.
    #[verifier::type_invariant]
    spec fn name_fixed(self) -> bool {
        self.name@ == "Random AI"@
    }

    pub fn new() -> RandomAI {
        RandomAI { name: String::from_str("Random AI") }
    }

    /// A legal position chosen uniformly at random, or `None` exactly when no
    /// legal placement exists.
    pub fn choose_move(&mut self, game: &GameState, piece: &Piece) -> (r: Option<(usize, usize)>)
        requires
            game.wf(),
        ensures
            (r is Some) <==> legal_positions(
                game.grid(),
                game.width as int,
                game.height as int,
                piece.shape@,
                game.current_player,
            ).len() > 0,
            r matches Some(m) ==> legal_positions(
                game.grid(),
                game.width as int,
                game.height as int,
                piece.shape@,
                game.current_player,
            ).contains(m),
    {
        let valid_moves = game.get_valid_moves(piece);
        if valid_moves.len() == 0 {
            return None;
        }
        let index = random_below(valid_moves.len());
        Some(valid_moves[index])
    }

    pub fn get_name(&self) -> (r: &str)
        ensures
            r@ == "Random AI"@,
    {
        proof {
            use_type_invariant(self);
        }
        self.name.as_str()
    }
}

/// Scores each legal placement one ply ahead and keeps the best.
pub struct GreedyAI {
    name: String,
}

impl GreedyAI {
    /// The stored display name is fixed.
    #[verifier::type_invariant]
    spec fn name_fixed(self) -> bool {
        self.name@ == "Greedy AI"@
    }

    pub fn new() -> GreedyAI {
        GreedyAI { name: String::from_str("Greedy AI") }
    }

    /// The greedy score of anchoring `piece` at `(x, y)`.
    fn evaluate_move(&self, game: &GameState, piece: &Piece, x: usize, y: usize) -> (r: i32)
        requires
            game.wf(),
            piece.shape@.len() <= MAX_CELLS,
            x < game.width,
            y < game.height,
            shape_in_bounds(
                piece.shape@,
                game.width as int,
                game.height as int,
                x as int,
                y as int,
            ),
        ensures
            r as int == greedy_eval(
                game.grid(),
                game.width as int,
                game.height as int,
                piece.shape@,
                x as int,
                y as int,
                game.current_player,
            ),
    {
        let ghost g = game.grid();
        let ghost w = game.width as int;
        let ghost h = game.height as int;
        let ghost sh = piece.shape@;
        let opp: u8 = if game.current_player == 1 {
            2
        } else {
            1
        };
        let mut nearby: u32 = 0;
        let mut i: usize = 0;
        while i < piece.shape.len()
            invariant
                i <= sh.len(),
                nearby <= 9 * i,
                nearby as int == nearby_count(g, w, h, sh.subrange(0, i as int), x as int, y as int, opp),
            decreases sh.len() - i,
        {
            let (px, py) = piece.shape[i];
            proof {
                assert(x + sh[i as int].0 < w && y + sh[i as int].1 < h);
                assert(sh.subrange(0, i + 1).drop_last() =~= sh.subrange(0, i as int));
                assert(sh.subrange(0, i + 1).last() == sh[i as int]);
            }
            let cnt = count_window(game, x + px, y + py, opp);
            nearby += cnt;
            i += 1;
        }
        proof {
            assert(sh.subrange(0, sh.len() as int) =~= sh);
        }
        proof {
            assert(game.width <= MAX_CELLS && game.height <= MAX_CELLS) by (nonlinear_arith)
                requires
                    game.width * game.height <= MAX_CELLS,
                    1 <= game.width,
                    1 <= game.height,
            ;
        }
        let center_x = game.width / 2;
        let center_y = game.height / 2;
        let xd: i64 = if x >= center_x {
            (x - center_x) as i64
        } else {
            (center_x - x) as i64
        };
        let yd: i64 = if y >= center_y {
            (y - center_y) as i64
        } else {
            (center_y - y) as i64
        };
        let score: i64 = 10 * (piece.shape.len() as i64) - (xd + yd) + 5 * (nearby as i64);
        proof {
            assert(score == greedy_eval(g, w, h, sh, x as int, y as int, game.current_player));
        }
        score as i32
    }

    /// The legal placement with the highest greedy score (earliest on a tie),
    /// or `None` exactly when no legal placement exists.
    pub fn choose_move(&mut self, game: &GameState, piece: &Piece) -> (r: Option<(usize, usize)>)
        requires
            game.wf(),
            piece.shape@.len() <= MAX_CELLS,
        ensures
            (r is Some) <==> legal_positions(
                game.grid(),
                game.width as int,
                game.height as int,
                piece.shape@,
                game.current_player,
            ).len() > 0,
            r matches Some(m) ==> m == greedy_pick(
                game.grid(),
                game.width as int,
                game.height as int,
                piece.shape@,
                game.current_player,
                legal_positions(
                    game.grid(),
                    game.width as int,
                    game.height as int,
                    piece.shape@,
                    game.current_player,
                ),
            ),
    {
        let ghost g = game.grid();
        let ghost w = game.width as int;
        let ghost h = game.height as int;
        let ghost sh = piece.shape@;
        let ghost p = game.current_player;
        let valid_moves = game.get_valid_moves(piece);
        if valid_moves.len() == 0 {
            return None;
        }
        proof {
            lemma_legal_positions_iff_legal(g, w, h, sh, p);
        }
        let mut best_move = valid_moves[0];
        let mut best_score = self.evaluate_move(game, piece, best_move.0, best_move.1);
        let mut i: usize = 1;
        while i < valid_moves.len()
            invariant
                1 <= i <= valid_moves@.len(),
                best_move == greedy_pick(g, w, h, sh, p, valid_moves@.subrange(0, i as int)),
                best_score as int == greedy_eval(
                    g,
                    w,
                    h,
                    sh,
                    best_move.0 as int,
                    best_move.1 as int,
                    p,
                ),
            decreases valid_moves@.len() - i,
        {
            let (x, y) = valid_moves[i];
            let score = self.evaluate_move(game, piece, x, y);
            proof {
                assert(valid_moves@.subrange(0, i + 1).drop_last() =~= valid_moves@.subrange(
                    0,
                    i as int,
                ));
                assert(valid_moves@.subrange(0, i + 1).last() == valid_moves@[i as int]);
            }
            if score > best_score {
                best_score = score;
                best_move = (x, y);
            }
            i += 1;
        }
        proof {
            assert(valid_moves@.subrange(0, valid_moves@.len() as int) =~= valid_moves@);
        }
        Some(best_move)
    }

    pub fn get_name(&self) -> (r: &str)
        ensures
            r@ == "Greedy AI"@,
    {
        proof {
            use_type_invariant(self);
        }
        self.name.as_str()
    }
}

/// Like `window_count_upto` but skipping the window's centre: how many of the
/// eight neighbours of `(cx, cy)` belong to `q`, after `k` offsets.
pub open spec fn adjacent_count_upto(
    g: Seq<Seq<Cell>>,
    w: int,
    h: int,
    cx: int,
    cy: int,
    q: u8,
    k: int,
) -> int
    decreases k,
{
    if k <= 0 {
        0
    } else {
        adjacent_count_upto(g, w, h, cx, cy, q, k - 1) + if k - 1 == 4 {
            0int
        } else {
            owned_at(g, w, h, cx + (k - 1) % 3 - 1, cy + (k - 1) / 3 - 1, q)
        }
    }
}

/// How many of the eight neighbours of `(cx, cy)` belong to `q`.
pub open spec fn adjacent_count(g: Seq<Seq<Cell>>, w: int, h: int, cx: int, cy: int, q: u8) -> int {
    adjacent_count_upto(g, w, h, cx, cy, q, 9)
}

/// The centre-control bonus after `k` offsets of the 3 by 3 window around the
/// board centre: each cell of `p` found there scores `3 - |dx| - |dy|`.
pub open spec fn center_control_upto(g: Seq<Seq<Cell>>, w: int, h: int, p: u8, k: int) -> int
    decreases k,
{
    if k <= 0 {
        0
    } else {
        let dx = (k - 1) % 3 - 1;
        let dy = (k - 1) / 3 - 1;
        center_control_upto(g, w, h, p, k - 1) + (3 - abs_diff(dx, 0) - abs_diff(dy, 0)) * owned_at(
            g,
            w,
            h,
            w / 2 + dx,
            h / 2 + dy,
            p,
        )
    }
}

/// The centre-control bonus of `p`: over the 3 by 3 window around the board
/// centre, each owned cell scores `3 - |dx| - |dy|`.
pub open spec fn center_control(g: Seq<Seq<Cell>>, w: int, h: int, p: u8) -> int {
    center_control_upto(g, w, h, p, 9)
}

/// The compactness sum of row `yy` up to column `upto_x`: every cell of `p`
/// contributes its number of owned eight-neighbours.
pub open spec fn row_compactness(
    g: Seq<Seq<Cell>>,
    w: int,
    h: int,
    p: u8,
    yy: int,
    upto_x: int,
) -> int
    decreases upto_x,
{
    if upto_x <= 0 {
        0
    } else {
        row_compactness(g, w, h, p, yy, upto_x - 1) + owned_at(g, w, h, upto_x - 1, yy, p)
            * adjacent_count(g, w, h, upto_x - 1, yy, p)
    }
}

pub open spec fn compactness_upto(g: Seq<Seq<Cell>>, w: int, h: int, p: u8, upto_y: int) -> int
    decreases upto_y,
{
    if upto_y <= 0 {
        0
    } else {
        compactness_upto(g, w, h, p, upto_y - 1) + row_compactness(g, w, h, p, upto_y - 1, w)
    }
}

/// The compactness bonus of `p`: over the whole board, each owned cell
/// contributes its number of owned eight-neighbours.
pub open spec fn compactness(g: Seq<Seq<Cell>>, w: int, h: int, p: u8) -> int {
    compactness_upto(g, w, h, p, h)
}

/// The static evaluation of a position from the side of `p`: one hundred
/// points per cell of advantage, plus centre control, plus compactness.
pub open spec fn static_eval(g: Seq<Seq<Cell>>, w: int, h: int, p: u8) -> int {
    100 * (grid_count(g, p) - grid_count(g, opponent_of(p))) + center_control(g, w, h, p)
        + compactness(g, w, h, p)
}

proof fn lemma_adjacent_count_upto_bounds(
    g: Seq<Seq<Cell>>,
    w: int,
    h: int,
    cx: int,
    cy: int,
    q: u8,
    k: int,
)
    ensures
        0 <= adjacent_count_upto(g, w, h, cx, cy, q, k) <= (if k >= 0 {
            k
        } else {
            0int
        }),
    decreases k,
{
    if k > 0 {
        lemma_adjacent_count_upto_bounds(g, w, h, cx, cy, q, k - 1);
    }
}

proof fn lemma_center_control_upto_bounds(g: Seq<Seq<Cell>>, w: int, h: int, p: u8, k: int)
    requires
        k <= 9,
    ensures
        0 <= center_control_upto(g, w, h, p, k) <= (if k >= 0 {
            3 * k
        } else {
            0int
        }),
    decreases k,
{
    if k > 0 && k <= 9 {
        lemma_center_control_upto_bounds(g, w, h, p, k - 1);
        let dx = (k - 1) % 3 - 1;
        let dy = (k - 1) / 3 - 1;
        let oa = owned_at(g, w, h, w / 2 + dx, h / 2 + dy, p);
        let wgt = 3 - abs_diff(dx, 0) - abs_diff(dy, 0);
        assert(0 <= (k - 1) % 3 <= 2 && 0 <= (k - 1) / 3 <= 2) by (nonlinear_arith)
            requires
                1 <= k <= 9,
        ;
        assert(0 <= wgt <= 3 && 0 <= oa <= 1);
        assert(0 <= wgt * oa <= 3) by (nonlinear_arith)
            requires
                0 <= wgt <= 3,
                0 <= oa <= 1,
        ;
    }
}

proof fn lemma_row_compactness_bounds(
    g: Seq<Seq<Cell>>,
    w: int,
    h: int,
    p: u8,
    yy: int,
    upto_x: int,
)
    ensures
        0 <= row_compactness(g, w, h, p, yy, upto_x) <= (if upto_x >= 0 {
            9 * upto_x
        } else {
            0int
        }),
    decreases upto_x,
{
    if upto_x > 0 {
        lemma_row_compactness_bounds(g, w, h, p, yy, upto_x - 1);
        lemma_adjacent_count_upto_bounds(g, w, h, upto_x - 1, yy, p, 9);
    }
}

proof fn lemma_compactness_upto_bounds(g: Seq<Seq<Cell>>, w: int, h: int, p: u8, upto_y: int)
    requires
        0 <= w,
    ensures
        0 <= compactness_upto(g, w, h, p, upto_y) <= (if upto_y >= 0 {
            9 * w * upto_y
        } else {
            0int
        }),
    decreases upto_y,
{
    if upto_y > 0 {
        lemma_compactness_upto_bounds(g, w, h, p, upto_y - 1);
        lemma_row_compactness_bounds(g, w, h, p, upto_y - 1, w);
        assert(9 * w * (upto_y - 1) + 9 * w == 9 * w * upto_y) by (nonlinear_arith);
    }
}

/// The static evaluation always fits strictly inside `i32`.
pub proof fn lemma_static_eval_bounds(g: Seq<Seq<Cell>>, w: int, h: int, p: u8)
    requires
        grid_wf(g, w, h),
        0 <= w,
        0 <= h,
        w * h <= MAX_CELLS,
    ensures
        -2100000000 <= static_eval(g, w, h, p) <= 2100000000,
{
    crate::rules::lemma_grid_count_bounds(g, w, h, p);
    crate::rules::lemma_grid_count_bounds(g, w, h, opponent_of(p));
    lemma_center_control_upto_bounds(g, w, h, p, 9);
    lemma_compactness_upto_bounds(g, w, h, p, h);
    assert(9 * w * h <= 171000000 && 100 * (h * w) <= 1900000000) by (nonlinear_arith)
        requires
            0 <= w,
            0 <= h,
            w * h <= 19000000,
    ;
}

/// The value of the minimax search from a position in which `p` is to move:
/// with depth left and legal moves available, the best (or worst, on the
/// minimizing side) value over every legal placement, each simulated by
/// applying the placement and handing the turn over; otherwise the static
/// evaluation of the position.
pub open spec fn minimax_value(
    g: Seq<Seq<Cell>>,
    w: int,
    h: int,
    sh: Seq<(usize, usize)>,
    p: u8,
    over: bool,
    depth: nat,
    maximizing: bool,
) -> int
    decreases depth, 1int, 0int,
{
    let cands = legal_positions(g, w, h, sh, p);
    if depth == 0 || over || cands.len() == 0 {
        static_eval(g, w, h, p)
    } else {
        minimax_scan(g, w, h, sh, p, over, depth, maximizing, cands, cands.len() as int)
    }
}

/// The running best value over the first `upto` candidates, scanned left to
/// right from the extreme initial value.
pub open spec fn minimax_scan(
    g: Seq<Seq<Cell>>,
    w: int,
    h: int,
    sh: Seq<(usize, usize)>,
    p: u8,
    over: bool,
    depth: nat,
    maximizing: bool,
    cands: Seq<(usize, usize)>,
    upto: int,
) -> int
    decreases depth, 0int, upto,
{
    if upto <= 0 || depth == 0 {
        if maximizing {
            i32::MIN as int
        } else {
            i32::MAX as int
        }
    } else {
        let prev = minimax_scan(g, w, h, sh, p, over, depth, maximizing, cands, upto - 1);
        let mv = cands[upto - 1];
        let cv = minimax_value(
            apply_to_grid(g, sh, mv.0 as int, mv.1 as int, p),
            w,
            h,
            sh,
            opponent_of(p),
            over,
            (depth - 1) as nat,
            !maximizing,
        );
        if maximizing {
            if cv > prev {
                cv
            } else {
                prev
            }
        } else {
            if cv < prev {
                cv
            } else {
                prev
            }
        }
    }
}

/// Every minimax value lies strictly inside `i32`.
pub proof fn lemma_minimax_value_bounds(
    g: Seq<Seq<Cell>>,
    w: int,
    h: int,
    sh: Seq<(usize, usize)>,
    p: u8,
    over: bool,
    depth: nat,
    maximizing: bool,
)
    requires
        grid_wf(g, w, h),
        0 <= w <= usize::MAX,
        0 <= h <= usize::MAX,
        w * h <= MAX_CELLS,
    ensures
        i32::MIN < minimax_value(g, w, h, sh, p, over, depth, maximizing) < i32::MAX,
    decreases depth, 1int, 0int,
{
    let cands = legal_positions(g, w, h, sh, p);
    if depth == 0 || over || cands.len() == 0 {
        lemma_static_eval_bounds(g, w, h, p);
    } else {
        lemma_minimax_scan_bounds(g, w, h, sh, p, over, depth, maximizing, cands, cands.len() as int);
    }
}

proof fn lemma_minimax_scan_bounds(
    g: Seq<Seq<Cell>>,
    w: int,
    h: int,
    sh: Seq<(usize, usize)>,
    p: u8,
    over: bool,
    depth: nat,
    maximizing: bool,
    cands: Seq<(usize, usize)>,
    upto: int,
)
    requires
        grid_wf(g, w, h),
        0 <= w <= usize::MAX,
        0 <= h <= usize::MAX,
        w * h <= MAX_CELLS,
        1 <= upto,
        depth >= 1,
    ensures
        i32::MIN < minimax_scan(g, w, h, sh, p, over, depth, maximizing, cands, upto) < i32::MAX,
    decreases depth, 0int, upto,
{
    let mv = cands[upto - 1];
    let child = apply_to_grid(g, sh, mv.0 as int, mv.1 as int, p);
    crate::rules::lemma_apply_wf(g, w, h, sh, mv.0 as int, mv.1 as int, p);
    lemma_minimax_value_bounds(child, w, h, sh, opponent_of(p), over, (depth - 1) as nat, !maximizing);
    if upto > 1 {
        lemma_minimax_scan_bounds(g, w, h, sh, p, over, depth, maximizing, cands, upto - 1);
    } else {
        assert(minimax_scan(g, w, h, sh, p, over, depth, maximizing, cands, 0) == (if maximizing {
            i32::MIN as int
        } else {
            i32::MAX as int
        }));
    }
}

/// The move a depth-limited search prefers among the first `upto` candidates:
/// the one whose simulated follow-up position has the highest search value,
/// the earliest candidate on a tie.
pub open spec fn minimax_pick(
    g: Seq<Seq<Cell>>,
    w: int,
    h: int,
    sh: Seq<(usize, usize)>,
    p: u8,
    over: bool,
    depth: nat,
    cands: Seq<(usize, usize)>,
    upto: int,
) -> (usize, usize)
    decreases upto,
{
    if upto <= 1 {
        cands[0]
    } else {
        let prev = minimax_pick(g, w, h, sh, p, over, depth, cands, upto - 1);
        let mv = cands[upto - 1];
        let pv = minimax_value(
            apply_to_grid(g, sh, prev.0 as int, prev.1 as int, p),
            w,
            h,
            sh,
            opponent_of(p),
            over,
            depth,
            false,
        );
        let cv = minimax_value(
            apply_to_grid(g, sh, mv.0 as int, mv.1 as int, p),
            w,
            h,
            sh,
            opponent_of(p),
            over,
            depth,
            false,
        );
        if cv > pv {
            mv
        } else {
            prev
        }
    }
}

/// The search's choice is one of the candidates it chose from.
pub proof fn lemma_minimax_pick_in(
    g: Seq<Seq<Cell>>,
    w: int,
    h: int,
    sh: Seq<(usize, usize)>,
    p: u8,
    over: bool,
    depth: nat,
    cands: Seq<(usize, usize)>,
    upto: int,
)
    requires
        1 <= upto <= cands.len(),
    ensures
        cands.contains(minimax_pick(g, w, h, sh, p, over, depth, cands, upto)),
    decreases upto,
{
    if upto <= 1 {
        assert(cands[0] == minimax_pick(g, w, h, sh, p, over, depth, cands, upto));
    } else {
        lemma_minimax_pick_in(g, w, h, sh, p, over, depth, cands, upto - 1);
    }
}

/// No candidate's simulated follow-up position has a strictly better search
/// value than the search's choice.
pub proof fn lemma_minimax_pick_maximal(
    g: Seq<Seq<Cell>>,
    w: int,
    h: int,
    sh: Seq<(usize, usize)>,
    p: u8,
    over: bool,
    depth: nat,
    cands: Seq<(usize, usize)>,
    upto: int,
)
    requires
        1 <= upto <= cands.len(),
    ensures
        ({
            let pick = minimax_pick(g, w, h, sh, p, over, depth, cands, upto);
            forall|k: int|
                0 <= k < upto ==> minimax_value(
                    apply_to_grid(g, sh, (#[trigger] cands[k]).0 as int, cands[k].1 as int, p),
                    w,
                    h,
                    sh,
                    opponent_of(p),
                    over,
                    depth,
                    false,
                ) <= minimax_value(
                    apply_to_grid(g, sh, pick.0 as int, pick.1 as int, p),
                    w,
                    h,
                    sh,
                    opponent_of(p),
                    over,
                    depth,
                    false,
                )
        }),
    decreases upto,
{
    if upto > 1 {
        lemma_minimax_pick_maximal(g, w, h, sh, p, over, depth, cands, upto - 1);
    }
}

/// An independent copy of the match state for simulating a placement.
fn copy_state(game: &GameState) -> (r: GameState)
    ensures
        r.grid() == game.grid(),
        r.width == game.width,
        r.height == game.height,
        r.current_player == game.current_player,
        r.turn == game.turn,
        r.game_over == game.game_over,
        r.winner == game.winner,
{
    let r = GameState {
        board: copy_grid(&game.board),
        width: game.width,
        height: game.height,
        current_player: game.current_player,
        turn: game.turn,
        game_over: game.game_over,
        winner: game.winner,
    };
    proof {
        assert(r.grid() =~~= game.grid());
    }
    r
}

/// The display name of a minimax engine of the given depth.
pub open spec fn minimax_name(depth: u32) -> Seq<char> {
    "Minimax AI (depth "@ + crate::text::dec_digits(depth as int) + seq![')']
}

/// Searches a few plies ahead, alternating between the two sides.
pub struct MinimaxAI {
    name: String,
    depth: u32,
}

impl MinimaxAI {
    /// The stored display name matches the search depth.
    #[verifier::type_invariant]
    spec fn name_matches(self) -> bool {
        self.name@ == minimax_name(self.depth)
    }

    /// How many plies ahead this engine searches.
    pub closed spec fn search_depth(self) -> u32 {
        self.depth
    }

    pub fn new(depth: u32) -> (r: MinimaxAI)
        ensures
            r.search_depth() == depth,
    {
        let mut name: Vec<char> = Vec::new();
        crate::text::push_str_chars(&mut name, "Minimax AI (depth ");
        crate::text::push_decimal(&mut name, depth as u64);
        name.push(')');
        proof {
            assert(name@ =~= minimax_name(depth));
        }
        MinimaxAI { name: crate::text::chars_to_string(&name), depth }
    }

    /// The static evaluation of the position from the current player's side.
    fn evaluate_position(&self, game: &GameState) -> (r: i32)
        requires
            game.wf(),
        ensures
            r as int == static_eval(
                game.grid(),
                game.width as int,
                game.height as int,
                game.current_player,
            ),
    {
        let ghost g = game.grid();
        let ghost w = game.width as int;
        let ghost h = game.height as int;
        let p = game.current_player;
        let (s1, s2) = game.calculate_scores();
        proof {
            crate::rules::lemma_grid_count_bounds(g, w, h, 1);
            crate::rules::lemma_grid_count_bounds(g, w, h, 2);
            assert(h * w <= 19000000 && 100 * (h * w) <= 1900000000) by (nonlinear_arith)
                requires
                    0 <= w,
                    0 <= h,
                    w * h <= 19000000,
            ;
        }
        let score_diff: i32 = if p == 1 {
            s1 as i32 - s2 as i32
        } else {
            s2 as i32 - s1 as i32
        };
        let center = self.evaluate_center_control(game);
        let compact = self.evaluate_compactness(game);
        score_diff * 100 + center + compact
    }

    /// The centre-control bonus of the current player.
    fn evaluate_center_control(&self, game: &GameState) -> (r: i32)
        requires
            game.wf(),
        ensures
            r as int == center_control(
                game.grid(),
                game.width as int,
                game.height as int,
                game.current_player,
            ),
            0 <= r <= 27,
    {
        let ghost g = game.grid();
        let ghost w = game.width as int;
        let ghost h = game.height as int;
        let p = game.current_player;
        proof {
            assert(game.width <= MAX_CELLS && game.height <= MAX_CELLS) by (nonlinear_arith)
                requires
                    game.width * game.height <= MAX_CELLS,
                    1 <= game.width,
                    1 <= game.height,
            ;
        }
        let center_x = game.width / 2;
        let center_y = game.height / 2;
        let mut control: i32 = 0;
        let mut k: usize = 0;
        while k < 9
            invariant
                k <= 9,
                0 <= control <= 3 * k,
                control as int == center_control_upto(g, w, h, p, k as int),
            decreases 9 - k,
        {
            let dx = (k % 3) as i64 - 1;
            let dy = (k / 3) as i64 - 1;
            let xx = center_x as i64 + dx;
            let yy = center_y as i64 + dy;
            if 0 <= xx && xx < game.width as i64 && 0 <= yy && yy < game.height as i64 {
                let xi = xx as usize;
                let yi = yy as usize;
                proof {
                    assert(game.grid()[yi as int] == game.board@[yi as int]@);
                }
                if game.board[yi][xi].is_player(p) {
                    let weight: i32 = 3 - (if dx >= 0 {
                        dx
                    } else {
                        -dx
                    } as i32) - (if dy >= 0 {
                        dy
                    } else {
                        -dy
                    } as i32);
                    control += weight;
                }
            }
            k += 1;
        }
        control
    }

    /// The compactness bonus of the current player.
    fn evaluate_compactness(&self, game: &GameState) -> (r: i32)
        requires
            game.wf(),
        ensures
            r as int == compactness(
                game.grid(),
                game.width as int,
                game.height as int,
                game.current_player,
            ),
            0 <= r <= 171000000,
    {
        let ghost g = game.grid();
        let ghost w = game.width as int;
        let ghost h = game.height as int;
        let p = game.current_player;
        let mut total: u32 = 0;
        let mut y: usize = 0;
        while y < game.height
            invariant
                y <= game.height,
                total as int == compactness_upto(g, w, h, p, y as int),
                total <= 9 * (y * game.width),
            decreases game.height - y,
        {
            let mut x: usize = 0;
            while x < game.width
                invariant
                    x <= game.width,
                    y < game.height,
                    total as int == compactness_upto(g, w, h, p, y as int) + row_compactness(
                        g,
                        w,
                        h,
                        p,
                        y as int,
                        x as int,
                    ),
                    total <= 9 * (y * game.width + x),
                decreases game.width - x,
            {
                proof {
                    assert(game.grid()[y as int] == game.board@[y as int]@);
                    lemma_compactness_counter_bound(game.width as int, game.height as int, x as int, y as int);
                }
                if game.board[y][x].is_player(p) {
                    let adj = self.count_adjacent_friendly(game, x, y, p);
                    total += adj;
                }
                x += 1;
            }
            proof {
                assert(9 * (y * game.width + game.width) == 9 * ((y + 1) * game.width))
                    by (nonlinear_arith);
            }
            y += 1;
        }
        proof {
            assert(total <= 171000000) by (nonlinear_arith)
                requires
                    total <= 9 * (game.height * game.width),
                    game.width * game.height <= 19000000,
                    0 <= game.width,
                    0 <= game.height,
            ;
        }
        total as i32
    }

    /// How many of the eight neighbours of `(x, y)` belong to `q`.
    fn count_adjacent_friendly(&self, game: &GameState, x: usize, y: usize, q: u8) -> (r: u32)
        requires
            game.wf(),
            q == 1 || q == 2,
            x < game.width,
            y < game.height,
        ensures
            r as int == adjacent_count(
                game.grid(),
                game.width as int,
                game.height as int,
                x as int,
                y as int,
                q,
            ),
            r <= 8,
    {
        let ghost g = game.grid();
        let ghost w = game.width as int;
        let ghost h = game.height as int;
        proof {
            assert(game.width <= MAX_CELLS && game.height <= MAX_CELLS) by (nonlinear_arith)
                requires
                    game.width * game.height <= MAX_CELLS,
                    1 <= game.width,
                    1 <= game.height,
            ;
        }
        let mut r: u32 = 0;
        let mut k: usize = 0;
        while k < 9
            invariant
                k <= 9,
                r <= (if k <= 4 {
                    k
                } else {
                    (k - 1) as usize
                }),
                r as int == adjacent_count_upto(g, w, h, x as int, y as int, q, k as int),
            decreases 9 - k,
        {
            if k != 4 {
                let dx = (k % 3) as i64 - 1;
                let dy = (k / 3) as i64 - 1;
                let xx = x as i64 + dx;
                let yy = y as i64 + dy;
                if 0 <= xx && xx < game.width as i64 && 0 <= yy && yy < game.height as i64 {
                    let xi = xx as usize;
                    let yi = yy as usize;
                    proof {
                        assert(game.grid()[yi as int] == game.board@[yi as int]@);
                    }
                    if game.board[yi][xi].is_player(q) {
                        r += 1;
                    }
                }
            }
            k += 1;
        }
        r
    }

    /// The search itself. The `alpha` and `beta` bounds are threaded through
    /// the recursion unchanged, so they never cut a branch; the result is the
    /// plain minimax value of the position at the given depth.
    fn minimax(
        &self,
        game: &GameState,
        piece: &Piece,
        depth: u32,
        alpha: i32,
        beta: i32,
        maximizing: bool,
    ) -> (r: i32)
        requires
            game.wf(),
            alpha < beta,
            game.turn + depth <= u32::MAX,
        ensures
            r as int == minimax_value(
                game.grid(),
                game.width as int,
                game.height as int,
                piece.shape@,
                game.current_player,
                game.game_over,
                depth as nat,
                maximizing,
            ),
        decreases depth,
    {
        let ghost g = game.grid();
        let ghost w = game.width as int;
        let ghost h = game.height as int;
        let ghost sh = piece.shape@;
        let ghost p = game.current_player;
        let ghost over = game.game_over;
        if depth == 0 || game.game_over {
            return self.evaluate_position(game);
        }
        let valid_moves = game.get_valid_moves(piece);
        if valid_moves.len() == 0 {
            return self.evaluate_position(game);
        }
        proof {
            lemma_legal_positions_iff_legal(g, w, h, sh, p);
        }
        let mut best: i32 = if maximizing {
            i32::MIN
        } else {
            i32::MAX
        };
        let mut i: usize = 0;
        while i < valid_moves.len()
            invariant
                i <= valid_moves@.len(),
                best as int == minimax_scan(
                    g,
                    w,
                    h,
                    sh,
                    p,
                    over,
                    depth as nat,
                    maximizing,
                    valid_moves@,
                    i as int,
                ),
            decreases valid_moves@.len() - i,
        {
            let (x, y) = valid_moves[i];
            let mut game_copy = copy_state(game);
            let placed = game_copy.place_piece(piece, x, y);
            proof {
                assert(is_legal(g, w, h, sh, x as int, y as int, p));
                assert(placed);
            }
            game_copy.switch_player();
            let eval = self.minimax(&game_copy, piece, depth - 1, alpha, beta, !maximizing);
            if maximizing {
                if eval > best {
                    best = eval;
                }
            } else {
                if eval < best {
                    best = eval;
                }
            }
            i += 1;
        }
        best
    }

    /// The legal placement whose simulated follow-up position has the best
    /// search value at this engine's depth (earliest on a tie); `None` exactly
    /// when no legal placement exists; with a single candidate, that one.
    pub fn choose_move(&mut self, game: &GameState, piece: &Piece) -> (r: Option<(usize, usize)>)
        requires
            game.wf(),
            old(self).search_depth() >= 1,
            game.turn + old(self).search_depth() <= u32::MAX,
        ensures
            (r is Some) <==> legal_positions(
                game.grid(),
                game.width as int,
                game.height as int,
                piece.shape@,
                game.current_player,
            ).len() > 0,
            ({
                let cands = legal_positions(
                    game.grid(),
                    game.width as int,
                    game.height as int,
                    piece.shape@,
                    game.current_player,
                );
                &&& (cands.len() == 1 ==> r == Some(cands[0]))
                &&& (cands.len() > 1 ==> r == Some(
                    minimax_pick(
                        game.grid(),
                        game.width as int,
                        game.height as int,
                        piece.shape@,
                        game.current_player,
                        game.game_over,
                        (old(self).search_depth() - 1) as nat,
                        cands,
                        cands.len() as int,
                    ),
                ))
            }),
    {
        let ghost g = game.grid();
        let ghost w = game.width as int;
        let ghost h = game.height as int;
        let ghost sh = piece.shape@;
        let ghost p = game.current_player;
        let ghost over = game.game_over;
        let ghost d = (self.depth - 1) as nat;
        let valid_moves = game.get_valid_moves(piece);
        if valid_moves.len() == 0 {
            return None;
        }
        if valid_moves.len() == 1 {
            return Some(valid_moves[0]);
        }
        proof {
            lemma_legal_positions_iff_legal(g, w, h, sh, p);
        }
        let mut best_move = valid_moves[0];
        let mut best_score = i32::MIN;
        let mut i: usize = 0;
        while i < valid_moves.len()
            invariant
                i <= valid_moves@.len(),
                valid_moves@.len() > 1,
                i == 0 ==> best_move == valid_moves@[0] && best_score == i32::MIN,
                i >= 1 ==> {
                    &&& best_move == minimax_pick(g, w, h, sh, p, over, d, valid_moves@, i as int)
                    &&& best_score as int == minimax_value(
                        apply_to_grid(g, sh, best_move.0 as int, best_move.1 as int, p),
                        w,
                        h,
                        sh,
                        opponent_of(p),
                        over,
                        d,
                        false,
                    )
                },
            decreases valid_moves@.len() - i,
        {
            let (x, y) = valid_moves[i];
            let mut game_copy = copy_state(game);
            let placed = game_copy.place_piece(piece, x, y);
            proof {
                assert(is_legal(g, w, h, sh, x as int, y as int, p));
                assert(placed);
            }
            game_copy.switch_player();
            let score = self.minimax(&game_copy, piece, self.depth - 1, i32::MIN, i32::MAX, false);
            proof {
                crate::rules::lemma_apply_wf(g, w, h, sh, x as int, y as int, p);
                lemma_minimax_value_bounds(
                    apply_to_grid(g, sh, x as int, y as int, p),
                    w,
                    h,
                    sh,
                    opponent_of(p),
                    over,
                    d,
                    false,
                );
            }
            if score > best_score {
                best_score = score;
                best_move = (x, y);
            }
            i += 1;
        }
        Some(best_move)
    }

    pub fn get_name(&self) -> &str {
        self.name.as_str()
    }
}

/// A pluggable decision policy: given a match state and the piece to place,
/// it either returns a legal position for the current player or reports that
/// none exists.
pub trait AIPlayer {
    /// Whether this policy is ready to act on the given state.
    spec fn ready(&self, game: &GameState) -> bool;

    /// The policy's display name.
    spec fn spec_name(&self) -> Seq<char>;

    fn choose_move(&mut self, game: &GameState, piece: &Piece) -> (r: Option<(usize, usize)>)
        requires
            game.wf(),
            piece.shape@.len() <= MAX_CELLS,
            old(self).ready(game),
        ensures
            (r is Some) <==> legal_positions(
                game.grid(),
                game.width as int,
                game.height as int,
                piece.shape@,
                game.current_player,
            ).len() > 0,
            r matches Some(m) ==> legal_positions(
                game.grid(),
                game.width as int,
                game.height as int,
                piece.shape@,
                game.current_player,
            ).contains(m),
    ;

    fn get_name(&self) -> (r: &str)
        ensures
            r@ == self.spec_name(),
    ;
}

impl AIPlayer for RandomAI {
    open spec fn ready(&self, game: &GameState) -> bool {
        true
    }

    open spec fn spec_name(&self) -> Seq<char> {
        "Random AI"@
    }

    fn choose_move(&mut self, game: &GameState, piece: &Piece) -> (r: Option<(usize, usize)>) {
        RandomAI::choose_move(self, game, piece)
    }

    fn get_name(&self) -> (r: &str) {
        proof {
            use_type_invariant(self);
        }
        self.name.as_str()
    }
}

impl AIPlayer for GreedyAI {
    open spec fn ready(&self, game: &GameState) -> bool {
        true
    }

    open spec fn spec_name(&self) -> Seq<char> {
        "Greedy AI"@
    }

    fn choose_move(&mut self, game: &GameState, piece: &Piece) -> (r: Option<(usize, usize)>) {
        let r = GreedyAI::choose_move(self, game, piece);
        proof {
            let cands = legal_positions(
                game.grid(),
                game.width as int,
                game.height as int,
                piece.shape@,
                game.current_player,
            );
            if cands.len() > 0 {
                lemma_greedy_pick_in(
                    game.grid(),
                    game.width as int,
                    game.height as int,
                    piece.shape@,
                    game.current_player,
                    cands,
                );
            }
        }
        r
    }

    fn get_name(&self) -> (r: &str) {
        proof {
            use_type_invariant(self);
        }
        self.name.as_str()
    }
}

impl AIPlayer for MinimaxAI {
    open spec fn ready(&self, game: &GameState) -> bool {
        self.search_depth() >= 1 && game.turn + self.search_depth() <= u32::MAX
    }

    open spec fn spec_name(&self) -> Seq<char> {
        minimax_name(self.search_depth())
    }

    fn choose_move(&mut self, game: &GameState, piece: &Piece) -> (r: Option<(usize, usize)>) {
        let ghost d = (self.search_depth() - 1) as nat;
        let r = MinimaxAI::choose_move(self, game, piece);
        proof {
            let cands = legal_positions(
                game.grid(),
                game.width as int,
                game.height as int,
                piece.shape@,
                game.current_player,
            );
            if cands.len() > 1 {
                lemma_minimax_pick_in(
                    game.grid(),
                    game.width as int,
                    game.height as int,
                    piece.shape@,
                    game.current_player,
                    game.game_over,
                    d,
                    cands,
                    cands.len() as int,
                );
            }
        }
        r
    }

    fn get_name(&self) -> (r: &str) {
        proof {
            use_type_invariant(self);
        }
        self.name.as_str()
    }
}

#[derive(Debug, Clone)]
pub enum AIDifficulty {
    Easy,
    Medium,
    Hard,
    Expert,
}

/// The closed set of decision policies, dispatched through one interface
/// instead of trait objects.
pub enum AiEngine {
    Random(RandomAI),
    Greedy(GreedyAI),
    Minimax(MinimaxAI),
}

impl AiEngine {
    /// Whether this engine is ready to act on the given state.
    pub open spec fn ready(self, game: GameState) -> bool {
        match self {
            AiEngine::Minimax(m) => m.search_depth() >= 1 && game.turn + m.search_depth()
                <= u32::MAX,
            _ => true,
        }
    }

    /// The held policy's display name.
    pub open spec fn spec_name(self) -> Seq<char> {
        match self {
            AiEngine::Random(ai) => ai.spec_name(),
            AiEngine::Greedy(ai) => ai.spec_name(),
            AiEngine::Minimax(ai) => ai.spec_name(),
        }
    }

    /// Picks a move with whichever policy this engine holds: a legal position
    /// for the current player, or `None` exactly when no legal placement
    /// exists.
    pub fn choose_move(&mut self, game: &GameState, piece: &Piece) -> (r: Option<(usize, usize)>)
        requires
            game.wf(),
            piece.shape@.len() <= MAX_CELLS,
            old(self).ready(*game),
        ensures
            (r is Some) <==> legal_positions(
                game.grid(),
                game.width as int,
                game.height as int,
                piece.shape@,
                game.current_player,
            ).len() > 0,
            r matches Some(m) ==> legal_positions(
                game.grid(),
                game.width as int,
                game.height as int,
                piece.shape@,
                game.current_player,
            ).contains(m),
    {
        match self {
            AiEngine::Random(ai) => AIPlayer::choose_move(ai, game, piece),
            AiEngine::Greedy(ai) => AIPlayer::choose_move(ai, game, piece),
            AiEngine::Minimax(ai) => AIPlayer::choose_move(ai, game, piece),
        }
    }

    pub fn get_name(&self) -> (r: &str)
        ensures
            r@ == self.spec_name(),
    {
        match self {
            AiEngine::Random(ai) => AIPlayer::get_name(ai),
            AiEngine::Greedy(ai) => AIPlayer::get_name(ai),
            AiEngine::Minimax(ai) => AIPlayer::get_name(ai),
        }
    }
}

/// The engine for a difficulty: random play, the greedy heuristic, or minimax
/// at depth 3 ("hard") or 5 ("expert").
pub fn create_ai(difficulty: AIDifficulty) -> (r: AiEngine)
    ensures
        match difficulty {
            AIDifficulty::Easy => r is Random,
            AIDifficulty::Medium => r is Greedy,
            AIDifficulty::Hard => r matches AiEngine::Minimax(m) && m.search_depth() == 3,
            AIDifficulty::Expert => r matches AiEngine::Minimax(m) && m.search_depth() == 5,
        },
{
    match difficulty {
        AIDifficulty::Easy => AiEngine::Random(RandomAI::new()),
        AIDifficulty::Medium => AiEngine::Greedy(GreedyAI::new()),
        AIDifficulty::Hard => AiEngine::Minimax(MinimaxAI::new(3)),
        AIDifficulty::Expert => AiEngine::Minimax(MinimaxAI::new(5)),
    }
}

/// Degenerate-case agreement: with exactly one legal candidate, the greedy
/// policy and the depth-limited search must both take it, so the search's
/// choice scores no worse than the greedy choice under the static evaluation.
pub proof fn lemma_single_candidate_agreement(
    g: Seq<Seq<Cell>>,
    w: int,
    h: int,
    sh: Seq<(usize, usize)>,
    p: u8,
    over: bool,
    depth: nat,
)
    requires
        legal_positions(g, w, h, sh, p).len() == 1,
    ensures
        ({
            let cands = legal_positions(g, w, h, sh, p);
            let gm = greedy_pick(g, w, h, sh, p, cands);
            let mm = minimax_pick(g, w, h, sh, p, over, depth, cands, cands.len() as int);
            &&& mm == gm
            &&& mm == cands[0]
            &&& static_eval(apply_to_grid(g, sh, mm.0 as int, mm.1 as int, p), w, h, p)
                >= static_eval(apply_to_grid(g, sh, gm.0 as int, gm.1 as int, p), w, h, p)
        }),
{
}

proof fn lemma_compactness_counter_bound(w: int, h: int, x: int, y: int)
    requires
        0 <= x < w,
        0 <= y < h,
    ensures
        0 <= y * w + x,
        9 * (y * w + x) + 9 <= 9 * (h * w),
        w * h <= MAX_CELLS ==> 9 * (y * w + x) + 9 <= 171000000,
{
    assert(0 <= y * w + x && 9 * (y * w + x) + 9 <= 9 * (h * w)) by (nonlinear_arith)
        requires
            0 <= x < w,
            0 <= y < h,
    ;
    if w * h <= MAX_CELLS {
        assert(9 * (h * w) <= 171000000) by (nonlinear_arith)
            requires
                w * h <= 19000000,
                0 <= w,
                0 <= h,
        ;
    }
}

} // verus!
