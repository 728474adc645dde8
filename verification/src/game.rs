//! The protocol-side match model: the Anfield, the piece in play, and the two
//! player records, with the canonical placement applied through the shared
//! rules.

use vstd::prelude::*;
use crate::rules::{
    apply_to_grid, check_placement, fresh_cell, grid_count, is_legal, settle_grid, shape_in_bounds,
};
use crate::game::player::territory_after;

pub mod anfield;
pub mod parser;
pub mod piece;
pub mod player;

pub use anfield::Anfield;
pub use anfield::Cell;
pub use parser::GameParser;
pub use piece::Piece;
pub use player::Player;

verus! {

/// A shape's offsets translated by `(x, y)`: the board cells a placement
/// claims.
pub open spec fn translate_cells(sh: Seq<(usize, usize)>, x: int, y: int) -> Seq<(usize, usize)> {
    Seq::new(sh.len(), |i: int| ((((sh[i].0 + x) as usize)), (((sh[i].1 + y) as usize))))
}

/// The protocol-side match state.
#[derive(Debug)]
pub struct GameState {
    pub anfield: Anfield,
    pub current_piece: Option<Piece>,
    pub player1: Player,
    pub player2: Player,
    pub current_player: u8,
    pub turn: u32,
}

impl GameState {
    /// A consistent state: a well-formed board and piece, and a current
    /// player that is 1 or 2.
    pub open spec fn wf(self) -> bool {
        &&& self.anfield.wf()
        &&& (self.current_player == 1 || self.current_player == 2)
        &&& (self.current_piece matches Some(p) ==> p.wf())
    }

    /// The record of the player to move.
    pub open spec fn current_record(self) -> Player {
        if self.current_player == 1 {
            self.player1
        } else {
            self.player2
        }
    }

    /// A fresh state on an empty board: no piece drawn yet, player 1 to move,
    /// turn counter at zero.
    pub fn new(width: usize, height: usize) -> (r: GameState)
        requires
            width * height <= crate::rules::MAX_CELLS,
        ensures
            r.wf(),
            r.anfield.width == width,
            r.anfield.height == height,
            forall|y: int, x: int|
                0 <= y < height && 0 <= x < width ==> #[trigger] r.anfield.view_grid()[y][x]
                    == Cell::Empty,
            r.current_piece is None,
            r.player1.id == 1 && r.player1.score == 0,
            r.player2.id == 2 && r.player2.score == 0,
            r.current_player == 1,
            r.turn == 0,
    {
        GameState {
            anfield: Anfield::new(width, height),
            current_piece: None,
            player1: Player::new(1),
            player2: Player::new(2),
            current_player: 1,
            turn: 0,
        }
    }

    /// The record of the player to move.
    pub fn get_current_player(&self) -> (r: &Player)
        ensures
            *r == self.current_record(),
    {
        if self.current_player == 1 {
            &self.player1
        } else {
            &self.player2
        }
    }

    /// A mutable borrow of the record of the player to move.
    pub fn get_current_player_mut(&mut self) -> (r: &mut Player)
        ensures
            *r == old(self).current_record(),
            old(self).current_player == 1 ==> final(self).player1 == *final(r) && final(self).player2
                == old(self).player2,
            old(self).current_player != 1 ==> final(self).player2 == *final(r) && final(self).player1
                == old(self).player1,
            final(self).anfield == old(self).anfield,
            final(self).current_piece == old(self).current_piece,
            final(self).current_player == old(self).current_player,
            final(self).turn == old(self).turn,
    {
        if self.current_player == 1 {
            &mut self.player1
        } else {
            &mut self.player2
        }
    }

    /// The record of the other player.
    pub fn get_opponent(&self) -> (r: &Player)
        ensures
            *r == (if self.current_player == 1 {
                self.player2
            } else {
                self.player1
            }),
    {
        if self.current_player == 1 {
            &self.player2
        } else {
            &self.player1
        }
    }

    /// Hands the turn to the other player.
    pub fn switch_player(&mut self)
        requires
            old(self).turn < u32::MAX,
        ensures
            final(self).current_player == (if old(self).current_player == 1 {
                2u8
            } else {
                1u8
            }),
            final(self).turn == old(self).turn + 1,
            final(self).anfield == old(self).anfield,
            final(self).current_piece == old(self).current_piece,
            final(self).player1 == old(self).player1,
            final(self).player2 == old(self).player2,
    {
        self.current_player = if self.current_player == 1 {
            2
        } else {
            1
        };
        self.turn += 1;
    }

    /// Recomputes both scores from the board.
    pub fn update_scores(&mut self)
        requires
            old(self).anfield.wf(),
        ensures
            final(self).player1.score as int == grid_count(old(self).anfield.view_grid(), 1),
            final(self).player2.score as int == grid_count(old(self).anfield.view_grid(), 2),
            final(self).player1.id == old(self).player1.id,
            final(self).player2.id == old(self).player2.id,
            final(self).player1.territory == old(self).player1.territory,
            final(self).player2.territory == old(self).player2.territory,
            final(self).anfield == old(self).anfield,
            final(self).current_piece == old(self).current_piece,
            final(self).current_player == old(self).current_player,
            final(self).turn == old(self).turn,
    {
        let s1 = self.anfield.count_player_cells(1);
        self.player1.update_score(s1);
        let s2 = self.anfield.count_player_cells(2);
        self.player2.update_score(s2);
    }

    /// Applies the piece in play at `(x, y)` if that placement is legal for
    /// the player to move: the player's own fresh cells settle (the
    /// opponent's stay fresh), the piece's cells become fresh territory, the
    /// claimed positions join the player's territory list, and both scores
    /// are recomputed from the board. An illegal placement (or no piece in
    /// play) changes nothing and reports `false`.
    pub fn place_piece(&mut self, x: usize, y: usize) -> (r: bool)
        requires
            old(self).wf(),
            old(self).current_piece matches Some(p) ==> old(self).current_record().score
                + p.cells().len() <= u32::MAX,
        ensures
            r == (old(self).current_piece matches Some(p) && is_legal(
                old(self).anfield.view_grid(),
                old(self).anfield.width as int,
                old(self).anfield.height as int,
                p.cells(),
                x as int,
                y as int,
                old(self).current_player,
            )),
            final(self).wf(),
            !r ==> *final(self) == *old(self),
            r ==> final(self).anfield.view_grid() == apply_to_grid(
                old(self).anfield.view_grid(),
                old(self).current_piece->Some_0.cells(),
                x as int,
                y as int,
                old(self).current_player,
            ),
            r ==> final(self).anfield.width == old(self).anfield.width,
            r ==> final(self).anfield.height == old(self).anfield.height,
            r ==> final(self).current_record().territory@ == territory_after(
                old(self).current_record().territory@,
                old(self).current_record().score as int,
                translate_cells(old(self).current_piece->Some_0.cells(), x as int, y as int),
            ).0,
            r ==> final(self).player1.score as int == grid_count(final(self).anfield.view_grid(), 1),
            r ==> final(self).player2.score as int == grid_count(final(self).anfield.view_grid(), 2),
            final(self).current_piece == old(self).current_piece,
            final(self).current_player == old(self).current_player,
            final(self).turn == old(self).turn,
    {
        let ghost g0 = self.anfield.view_grid();
        let w = self.anfield.width;
        let h = self.anfield.height;
        let p = self.current_player;
        let rel = match &self.current_piece {
            None => {
                return false;
            },
            Some(piece) => piece.get_piece_cells(),
        };
        let ghost sh = rel@;
        if !check_placement(&self.anfield.grid, w, h, &rel, x, y, p) {
            return false;
        }
        self.anfield.update_old_pieces(p);
        let ghost gs = settle_grid(g0, p);
        let cell = if p == 1 {
            Cell::Player1New
        } else {
            Cell::Player2New
        };
        let mut abs: Vec<(usize, usize)> = Vec::new();
        let mut i: usize = 0;
        while i < rel.len()
            invariant
                i <= sh.len(),
                rel@ == sh,
                self.anfield.width == w,
                self.anfield.height == h,
                self.anfield.wf(),
                self.current_piece == old(self).current_piece,
                self.current_player == old(self).current_player,
                self.turn == old(self).turn,
                self.player1 == old(self).player1,
                self.player2 == old(self).player2,
                shape_in_bounds(sh, w as int, h as int, x as int, y as int),
                abs@ == translate_cells(sh.subrange(0, i as int), x as int, y as int),
                forall|yy: int, xx: int|
                    0 <= yy < h && 0 <= xx < w ==> #[trigger] self.anfield.view_grid()[yy][xx] == (
                    if crate::rules::shape_covers(
                        sh.subrange(0, i as int),
                        x as int,
                        y as int,
                        xx,
                        yy,
                    ) {
                        fresh_cell(p)
                    } else {
                        gs[yy][xx]
                    }),
            decreases sh.len() - i,
        {
            let (px, py) = rel[i];
            proof {
                assert(x + sh[i as int].0 < w && y + sh[i as int].1 < h);
            }
            let ax = x + px;
            let ay = y + py;
            let ghost gprev = self.anfield.view_grid();
            let ok = self.anfield.set_cell(ax, ay, cell);
            abs.push((ax, ay));
            proof {
                assert(ok);
                let pre = sh.subrange(0, i as int);
                let cur = sh.subrange(0, i + 1);
                assert(cur.drop_last() =~= pre);
                assert(cur.last() == sh[i as int]);
                assert(abs@ =~= translate_cells(cur, x as int, y as int));
                assert forall|yy: int, xx: int|
                    0 <= yy < h && 0 <= xx < w implies #[trigger] self.anfield.view_grid()[yy][xx]
                    == (if crate::rules::shape_covers(cur, x as int, y as int, xx, yy) {
                    fresh_cell(p)
                } else {
                    gs[yy][xx]
                }) by {
                    assert(gprev[yy].len() == w);
                    if !(yy == ay as int && xx == ax as int) {
                        assert(self.anfield.view_grid()[yy][xx] == gprev[yy][xx]);
                    }
                    if yy == ay as int && xx == ax as int {
                        assert(x + cur[i as int].0 == xx && y + cur[i as int].1 == yy);
                        assert(crate::rules::shape_covers(cur, x as int, y as int, xx, yy));
                    } else {
                        if crate::rules::shape_covers(pre, x as int, y as int, xx, yy) {
                            let k = choose|k: int|
                                0 <= k < pre.len() && x + pre[k].0 == xx && y + pre[k].1 == yy;
                            assert(cur[k] == pre[k]);
                            assert(crate::rules::shape_covers(cur, x as int, y as int, xx, yy));
                        }
                        if crate::rules::shape_covers(cur, x as int, y as int, xx, yy) {
                            let k = choose|k: int|
                                0 <= k < cur.len() && x + cur[k].0 == xx && y + cur[k].1 == yy;
                            assert(k < i as int);
                            assert(pre[k] == cur[k]);
                            assert(crate::rules::shape_covers(pre, x as int, y as int, xx, yy));
                        }
                    }
                }
            }
            i += 1;
        }
        proof {
            assert(sh.subrange(0, sh.len() as int) =~= sh);
            assert(abs@ =~= translate_cells(sh, x as int, y as int));
            assert(self.anfield.view_grid() =~~= crate::rules::place_on_grid(
                gs,
                sh,
                x as int,
                y as int,
                p,
            ));
        }
        if self.current_player == 1 {
            self.player1.add_territory(abs);
        } else {
            self.player2.add_territory(abs);
        }
        self.update_scores();
        true
    }
}

} // verus!
