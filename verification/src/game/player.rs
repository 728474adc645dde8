//! A player record: identity, the cached list of owned positions, and the
//! score derived from it.

use vstd::prelude::*;

verus! {

/// What appending a batch of positions does to a territory: each position not
/// already present is pushed, and each push scores one point.
pub open spec fn territory_after(
    terr: Seq<(usize, usize)>,
    score: int,
    ps: Seq<(usize, usize)>,
) -> (Seq<(usize, usize)>, int)
    decreases ps.len(),
{
    if ps.len() == 0 {
        (terr, score)
    } else {
        let (t, s) = territory_after(terr, score, ps.drop_last());
        if t.contains(ps.last()) {
            (t, s)
        } else {
            (t.push(ps.last()), s + 1)
        }
    }
}

/// One side of the match: its identity, its claimed positions, and its score.
#[derive(Debug)]
pub struct Player {
    pub id: u8,
    pub territory: Vec<(usize, usize)>,
    pub score: u32,
}

impl Player {
    /// A player with no territory yet.
    pub fn new(id: u8) -> (r: Player)
        ensures
            r.id == id,
            r.territory@ == Seq::<(usize, usize)>::empty(),
            r.score == 0,
    {
        Player { id, territory: Vec::new(), score: 0 }
    }

    /// Whether this player has claimed `(x, y)`.
    pub fn has_territory_at(&self, x: usize, y: usize) -> (r: bool)
        ensures
            r == self.territory@.contains((x, y)),
    {
        let mut i: usize = 0;
        while i < self.territory.len()
            invariant
                i <= self.territory@.len(),
                forall|k: int| 0 <= k < i ==> #[trigger] self.territory@[k] !== (x, y),
            decreases self.territory@.len() - i,
        {
            let (px, py) = self.territory[i];
            if px == x && py == y {
                return true;
            }
            i += 1;
        }
        false
    }

    /// Adds each position that is not already claimed, scoring one point per
    /// new position.
    pub fn add_territory(&mut self, positions: Vec<(usize, usize)>)
        requires
            old(self).score + positions@.len() <= u32::MAX,
        ensures
            final(self).id == old(self).id,
            final(self).territory@ == territory_after(
                old(self).territory@,
                old(self).score as int,
                positions@,
            ).0,
            final(self).score as int == territory_after(
                old(self).territory@,
                old(self).score as int,
                positions@,
            ).1,
    {
        let ghost ps = positions@;
        let mut i: usize = 0;
        while i < positions.len()
            invariant
                i <= ps.len(),
                self.id == old(self).id,
                self.territory@ == territory_after(
                    old(self).territory@,
                    old(self).score as int,
                    ps.subrange(0, i as int),
                ).0,
                self.score as int == territory_after(
                    old(self).territory@,
                    old(self).score as int,
                    ps.subrange(0, i as int),
                ).1,
                self.score + (ps.len() - i) <= u32::MAX,
            decreases ps.len() - i,
        {
            let (px, py) = positions[i];
            proof {
                assert(ps.subrange(0, i + 1).drop_last() =~= ps.subrange(0, i as int));
                assert(ps.subrange(0, i + 1).last() == ps[i as int]);
            }
            if !self.has_territory_at(px, py) {
                self.territory.push((px, py));
                self.score += 1;
            }
            i += 1;
        }
        proof {
            assert(ps.subrange(0, ps.len() as int) =~= ps);
        }
    }

    /// The claimed positions, in the order they were claimed.
    pub fn get_territory_cells(&self) -> (r: &Vec<(usize, usize)>)
        ensures
            r@ == self.territory@,
    {
        &self.territory
    }

    /// Overwrites the score (used when the score is recomputed from the
    /// board).
    pub fn update_score(&mut self, new_score: u32)
        ensures
            final(self).score == new_score,
            final(self).id == old(self).id,
            final(self).territory == old(self).territory,
    {
        self.score = new_score;
    }

    /// Forgets all territory and resets the score.
    pub fn clear_territory(&mut self)
        ensures
            final(self).id == old(self).id,
            final(self).territory@ == Seq::<(usize, usize)>::empty(),
            final(self).score == 0,
    {
        self.territory.clear();
        self.score = 0;
    }

    /// Whether `(x, y)` touches this player's territory in one of the four
    /// cardinal directions.
    pub fn is_adjacent_to_territory(&self, x: usize, y: usize) -> (r: bool)
        requires
            x < usize::MAX,
            y < usize::MAX,
        ensures
            r == {
                ||| self.territory@.contains((x, ((y + 1) as usize)))
                ||| self.territory@.contains((((x + 1) as usize), y))
                ||| (y > 0 && self.territory@.contains((x, ((y - 1) as usize))))
                ||| (x > 0 && self.territory@.contains((((x - 1) as usize), y)))
            },
    {
        if self.has_territory_at(x, y + 1) {
            return true;
        }
        if self.has_territory_at(x + 1, y) {
            return true;
        }
        if y > 0 && self.has_territory_at(x, y - 1) {
            return true;
        }
        if x > 0 && self.has_territory_at(x - 1, y) {
            return true;
        }
        false
    }
}

} // verus!
