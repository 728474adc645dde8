//! The protocol-side strategy: enumerate the legal placements for the player
//! to move and keep the best-scoring one, combining the evaluator's score
//! with an expansion bonus and a blocking bonus.

use vstd::prelude::*;
use crate::ai::abs_diff;
use crate::ai::evaluation::{
    Evaluator, adj4_empty, adj4_empty_sum, adj4_owned_sum, position_eval,
};
use crate::game::GameState;
use crate::game::anfield::Anfield;
use crate::game::piece::Piece;
use crate::game::player::Player;
use crate::rules::{
    Cell, check_placement, is_legal, legal_positions, legal_positions_upto,
    lemma_legal_positions_iff_legal, row_legal_positions, shape_in_bounds,
};

verus! {

pub open spec fn min_int(a: int, b: int) -> int {
    if a < b {
        a
    } else {
        b
    }
}

/// The expansion bonus of one claimed cell: three points per empty cardinal
/// neighbour, plus up to twenty points for closeness to the centre.
pub open spec fn cell_strategic(g: Seq<Seq<Cell>>, w: int, h: int, cx: int, cy: int) -> int {
    adj4_empty(g, w, h, cx, cy) * 3 + (10 - min_int(
        abs_diff(cx, w / 2) + abs_diff(cy, h / 2),
        10,
    )) * 2
}

/// The expansion bonus summed over the placement's cells.
pub open spec fn strategic_sum(
    g: Seq<Seq<Cell>>,
    w: int,
    h: int,
    sh: Seq<(usize, usize)>,
    x: int,
    y: int,
) -> int
    decreases sh.len(),
{
    if sh.len() == 0 {
        0
    } else {
        strategic_sum(g, w, h, sh.drop_last(), x, y) + cell_strategic(
            g,
            w,
            h,
            x + sh.last().0,
            y + sh.last().1,
        )
    }
}

/// The strategy's full score for a placement: the evaluator's score, plus the
/// expansion bonus, plus five points per opponent cell cardinally adjacent to
/// the placement.
pub open spec fn strategy_eval(
    g: Seq<Seq<Cell>>,
    w: int,
    h: int,
    sh: Seq<(usize, usize)>,
    x: int,
    y: int,
    opp: u8,
) -> int {
    position_eval(g, w, h, sh, x, y, opp) + strategic_sum(g, w, h, sh, x, y) + 5 * adj4_owned_sum(
        g,
        w,
        h,
        sh,
        x,
        y,
        opp,
    )
}

/// The strategy's choice among `cands`: the highest `strategy_eval` score,
/// the earliest candidate on a tie.
pub open spec fn strategy_pick(
    g: Seq<Seq<Cell>>,
    w: int,
    h: int,
    sh: Seq<(usize, usize)>,
    opp: u8,
    cands: Seq<(usize, usize)>,
) -> (usize, usize)
    decreases cands.len(),
{
    if cands.len() <= 1 {
        cands[0]
    } else {
        let prev = strategy_pick(g, w, h, sh, opp, cands.drop_last());
        let cand = cands.last();
        if strategy_eval(g, w, h, sh, cand.0 as int, cand.1 as int, opp) > strategy_eval(
            g,
            w,
            h,
            sh,
            prev.0 as int,
            prev.1 as int,
            opp,
        ) {
            cand
        } else {
            prev
        }
    }
}

/// The strategy's choice is one of the candidates it chose from.
pub proof fn lemma_strategy_pick_in(
    g: Seq<Seq<Cell>>,
    w: int,
    h: int,
    sh: Seq<(usize, usize)>,
    opp: u8,
    cands: Seq<(usize, usize)>,
)
    requires
        cands.len() >= 1,
    ensures
        cands.contains(strategy_pick(g, w, h, sh, opp, cands)),
    decreases cands.len(),
{
    if cands.len() > 1 {
        lemma_strategy_pick_in(g, w, h, sh, opp, cands.drop_last());
        let prev = strategy_pick(g, w, h, sh, opp, cands.drop_last());
        let k = choose|k: int| 0 <= k < cands.drop_last().len() && cands.drop_last()[k] == prev;
        assert(cands[k] == prev);
    }
}

/// No candidate scores strictly better than the strategy's choice.
pub proof fn lemma_strategy_pick_maximal(
    g: Seq<Seq<Cell>>,
    w: int,
    h: int,
    sh: Seq<(usize, usize)>,
    opp: u8,
    cands: Seq<(usize, usize)>,
)
    requires
        cands.len() >= 1,
    ensures
        forall|k: int|
            0 <= k < cands.len() ==> strategy_eval(
                g,
                w,
                h,
                sh,
                (#[trigger] cands[k]).0 as int,
                cands[k].1 as int,
                opp,
            ) <= strategy_eval(
                g,
                w,
                h,
                sh,
                strategy_pick(g, w, h, sh, opp, cands).0 as int,
                strategy_pick(g, w, h, sh, opp, cands).1 as int,
                opp,
            ),
    decreases cands.len(),
{
    if cands.len() > 1 {
        lemma_strategy_pick_maximal(g, w, h, sh, opp, cands.drop_last());
        assert(forall|k: int| 0 <= k < cands.len() - 1 ==> cands.drop_last()[k] == #[trigger] cands[k]);
    }
}

/// The move picker of the protocol-side AI.
pub struct Strategy;

impl Strategy {
    pub fn new() -> Strategy {
        Strategy
    }

    /// Every anchor at which `player` may place the piece, scanned row by
    /// row and left to right.
    pub fn get_valid_positions(&self, anfield: &Anfield, piece: &Piece, player: &Player) -> (r: Vec<
        (usize, usize),
    >)
        requires
            anfield.wf(),
            piece.wf(),
            player.id == 1 || player.id == 2,
        ensures
            r@ == legal_positions(
                anfield.view_grid(),
                anfield.width as int,
                anfield.height as int,
                piece.cells(),
                player.id,
            ),
    {
        let ghost g = anfield.view_grid();
        let ghost w = anfield.width as int;
        let ghost h = anfield.height as int;
        let ghost sh = piece.cells();
        let ghost pid = player.id;
        let rel = piece.get_piece_cells();
        let mut positions: Vec<(usize, usize)> = Vec::new();
        let mut y: usize = 0;
        while y < anfield.height
            invariant
                y <= anfield.height,
                rel@ == sh,
                positions@ == legal_positions_upto(g, w, h, sh, pid, y as int),
            decreases anfield.height - y,
        {
            let mut x: usize = 0;
            while x < anfield.width
                invariant
                    x <= anfield.width,
                    y < anfield.height,
                    rel@ == sh,
                    positions@ == legal_positions_upto(g, w, h, sh, pid, y as int)
                        + row_legal_positions(g, w, h, sh, pid, y as int, x as int),
                decreases anfield.width - x,
            {
                if check_placement(&anfield.grid, anfield.width, anfield.height, &rel, x, y, player.id) {
                    positions.push((x, y));
                }
                proof {
                    assert(positions@ =~= legal_positions_upto(g, w, h, sh, pid, y as int)
                        + row_legal_positions(g, w, h, sh, pid, y as int, x + 1));
                }
                x += 1;
            }
            y += 1;
        }
        positions
    }

    /// The legal anchors for the given player number, derived from the board
    /// alone.
    pub fn find_valid_positions(&self, anfield: &Anfield, piece: &Piece, player_id: u8) -> (r: Vec<
        (usize, usize),
    >)
        requires
            anfield.wf(),
            piece.wf(),
            player_id == 1 || player_id == 2,
        ensures
            r@ == legal_positions(
                anfield.view_grid(),
                anfield.width as int,
                anfield.height as int,
                piece.cells(),
                player_id,
            ),
    {
        let mut player = Player::new(player_id);
        let territory = anfield.get_player_territory(player_id);
        player.territory = territory;
        self.get_valid_positions(anfield, piece, &player)
    }

    /// Whether the given player may place the piece at `(x, y)`.
    pub fn validate_move(
        &self,
        anfield: &Anfield,
        piece: &Piece,
        x: usize,
        y: usize,
        player: &Player,
        opponent: &Player,
    ) -> (r: bool)
        requires
            anfield.wf(),
            piece.wf(),
            player.id == 1 || player.id == 2,
        ensures
            r == is_legal(
                anfield.view_grid(),
                anfield.width as int,
                anfield.height as int,
                piece.cells(),
                x as int,
                y as int,
                player.id,
            ),
    {
        let rel = piece.get_piece_cells();
        check_placement(&anfield.grid, anfield.width, anfield.height, &rel, x, y, player.id)
    }

    /// The strategy's full score for anchoring the piece at `(x, y)`.
    fn total_eval(&self, anfield: &Anfield, piece: &Piece, x: usize, y: usize, opp: u8) -> (r: i32)
        requires
            anfield.wf(),
            piece.wf(),
            piece.cells().len() <= crate::rules::MAX_CELLS,
            opp == 1 || opp == 2,
            x < anfield.width,
            y < anfield.height,
            shape_in_bounds(
                piece.cells(),
                anfield.width as int,
                anfield.height as int,
                x as int,
                y as int,
            ),
        ensures
            r as int == strategy_eval(
                anfield.view_grid(),
                anfield.width as int,
                anfield.height as int,
                piece.cells(),
                x as int,
                y as int,
                opp,
            ),
    {
        let ghost g = anfield.view_grid();
        let ghost w = anfield.width as int;
        let ghost h = anfield.height as int;
        let ghost sh = piece.cells();
        proof {
            assert(anfield.width <= 19000000 && anfield.height <= 19000000) by (nonlinear_arith)
                requires
                    anfield.width * anfield.height <= 19000000,
                    x < anfield.width,
                    y < anfield.height,
                    x >= 0,
                    y >= 0,
            ;
        }
        let evaluator = Evaluator;
        let opp_rec = Player::new(opp);
        let base = evaluator.evaluate_position(anfield, piece, x, y, &Player::new(0), &opp_rec)
            as i64;
        let blocking5 = evaluator.evaluate_connectivity(anfield, piece, x, y, opp) as i64 * 5;
        let rel = piece.get_piece_cells();
        let center_x = anfield.width / 2;
        let center_y = anfield.height / 2;
        let mut strategic: i64 = 0;
        let mut i: usize = 0;
        while i < rel.len()
            invariant
                i <= sh.len(),
                rel@ == sh,
                0 <= strategic <= 32 * i,
                strategic as int == strategic_sum(g, w, h, sh.subrange(0, i as int), x as int, y as int),
            decreases sh.len() - i,
        {
            let (px, py) = rel[i];
            proof {
                assert(x + sh[i as int].0 < w && y + sh[i as int].1 < h);
                assert(sh.subrange(0, i + 1).drop_last() =~= sh.subrange(0, i as int));
                assert(sh.subrange(0, i + 1).last() == sh[i as int]);
            }
            let cx = x + px;
            let cy = y + py;
            let empties = evaluator.count_adjacent_empty_cells(anfield, cx, cy) as i64;
            let xd: i64 = if cx >= center_x {
                (cx - center_x) as i64
            } else {
                (center_x - cx) as i64
            };
            let yd: i64 = if cy >= center_y {
                (cy - center_y) as i64
            } else {
                (center_y - cy) as i64
            };
            let dist = xd + yd;
            let capped: i64 = if dist < 10 {
                dist
            } else {
                10
            };
            strategic += empties * 3 + (10 - capped) * 2;
            i += 1;
        }
        proof {
            assert(sh.subrange(0, sh.len() as int) =~= sh);
        }
        (base + strategic + blocking5) as i32
    }

    /// The legal placement with the highest strategy score (earliest on a
    /// tie) for the player to move, or `None` exactly when no legal placement
    /// exists.
    pub fn find_best_move(&self, game_state: &GameState, piece: &Piece, _player_id: u8) -> (r:
        Option<(usize, usize)>)
        requires
            game_state.wf(),
            piece.wf(),
            piece.cells().len() <= crate::rules::MAX_CELLS,
        ensures
            (r is Some) <==> legal_positions(
                game_state.anfield.view_grid(),
                game_state.anfield.width as int,
                game_state.anfield.height as int,
                piece.cells(),
                game_state.current_player,
            ).len() > 0,
            r matches Some(m) ==> m == strategy_pick(
                game_state.anfield.view_grid(),
                game_state.anfield.width as int,
                game_state.anfield.height as int,
                piece.cells(),
                crate::rules::opponent_of(game_state.current_player),
                legal_positions(
                    game_state.anfield.view_grid(),
                    game_state.anfield.width as int,
                    game_state.anfield.height as int,
                    piece.cells(),
                    game_state.current_player,
                ),
            ),
    {
        let ghost g = game_state.anfield.view_grid();
        let ghost w = game_state.anfield.width as int;
        let ghost h = game_state.anfield.height as int;
        let ghost sh = piece.cells();
        let pid = game_state.current_player;
        let opp: u8 = if pid == 1 {
            2
        } else {
            1
        };
        let mut acting = Player::new(pid);
        let valid_positions = self.get_valid_positions(&game_state.anfield, piece, &acting);
        if valid_positions.len() == 0 {
            return None;
        }
        proof {
            lemma_legal_positions_iff_legal(g, w, h, sh, pid);
        }
        let (x0, y0) = valid_positions[0];
        let mut best_position = (x0, y0);
        let mut best_score = self.total_eval(&game_state.anfield, piece, x0, y0, opp);
        let mut i: usize = 1;
        while i < valid_positions.len()
            invariant
                1 <= i <= valid_positions@.len(),
                best_position == strategy_pick(g, w, h, sh, opp, valid_positions@.subrange(0, i as int)),
                best_score as int == strategy_eval(
                    g,
                    w,
                    h,
                    sh,
                    best_position.0 as int,
                    best_position.1 as int,
                    opp,
                ),
            decreases valid_positions@.len() - i,
        {
            let (x, y) = valid_positions[i];
            let score = self.total_eval(&game_state.anfield, piece, x, y, opp);
            proof {
                assert(valid_positions@.subrange(0, i + 1).drop_last() =~= valid_positions@.subrange(
                    0,
                    i as int,
                ));
                assert(valid_positions@.subrange(0, i + 1).last() == valid_positions@[i as int]);
            }
            if score > best_score {
                best_score = score;
                best_position = (x, y);
            }
            i += 1;
        }
        proof {
            assert(valid_positions@.subrange(0, valid_positions@.len() as int) =~= valid_positions@);
        }
        Some(best_position)
    }
}

/// The protocol-side AI as a whole: remembers which player it is and picks a
/// move for each frame it is shown.
pub struct FillterAI {
    pub player_id: Option<u8>,
    pub strategy: Strategy,
}

impl FillterAI {
    pub fn new() -> (r: FillterAI)
        ensures
            r.player_id is None,
    {
        FillterAI { player_id: None, strategy: Strategy }
    }

    /// The reply for one frame: the best legal placement for this AI's
    /// player, or `(0, 0)` when no legal placement exists (the protocol's
    /// "no move" reply).
    pub fn make_move(&self, anfield: Anfield, piece: Piece) -> (r: (usize, usize))
        requires
            anfield.wf(),
            piece.wf(),
            piece.cells().len() <= crate::rules::MAX_CELLS,
            self.player_id matches Some(p) ==> p == 1 || p == 2,
        ensures
            ({
                let pid = match self.player_id {
                    Some(p) => p,
                    None => 1u8,
                };
                let cands = legal_positions(
                    anfield.view_grid(),
                    anfield.width as int,
                    anfield.height as int,
                    piece.cells(),
                    pid,
                );
                if cands.len() > 0 {
                    r == strategy_pick(
                        anfield.view_grid(),
                        anfield.width as int,
                        anfield.height as int,
                        piece.cells(),
                        crate::rules::opponent_of(pid),
                        cands,
                    )
                } else {
                    r == (0usize, 0usize)
                }
            }),
    {
        let pid: u8 = match self.player_id {
            Some(p) => p,
            None => 1,
        };
        let mut p1 = Player::new(1);
        let mut p2 = Player::new(2);
        let t1 = anfield.get_player_territory(1);
        let t2 = anfield.get_player_territory(2);
        p1.territory = t1;
        p2.territory = t2;
        let mut game_state = GameState {
            anfield,
            current_piece: Some(piece),
            player1: p1,
            player2: p2,
            current_player: pid,
            turn: 0,
        };
        game_state.update_scores();
        let r = match &game_state.current_piece {
            Some(p) => self.strategy.find_best_move(&game_state, p, pid),
            None => None,
        };
        match r {
            Some((x, y)) => (x, y),
            None => (0, 0),
        }
    }
}

} // verus!
