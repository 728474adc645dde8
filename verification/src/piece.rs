//! Pieces for the match engine: a shape as a list of occupied `(x, y)`
//! offsets, plus the seeded generator that draws one piece per turn from a
//! fixed catalog of polyomino shapes.

use vstd::prelude::*;
use crate::rules::shape_distinct;

verus! {

/// A piece: occupied cells as zero-based `(x, y)` offsets, with the bounding
/// box implied by them.
#[derive(Debug, Clone)]
pub struct Piece {
    pub shape: Vec<(usize, usize)>,
    pub width: usize,
    pub height: usize,
}

/// The largest x offset in a shape (0 when the shape is empty).
pub open spec fn shape_max_x(sh: Seq<(usize, usize)>) -> int
    decreases sh.len(),
{
    if sh.len() == 0 {
        0
    } else {
        let m = shape_max_x(sh.drop_last());
        if sh.last().0 > m {
            sh.last().0 as int
        } else {
            m
        }
    }
}

/// The largest y offset in a shape (0 when the shape is empty).
pub open spec fn shape_max_y(sh: Seq<(usize, usize)>) -> int
    decreases sh.len(),
{
    if sh.len() == 0 {
        0
    } else {
        let m = shape_max_y(sh.drop_last());
        if sh.last().1 > m {
            sh.last().1 as int
        } else {
            m
        }
    }
}

impl Piece {
    /// A well-formed piece: at least one occupied cell, no cell repeated, and
    /// a bounding box that matches the offsets.
    pub open spec fn wf(self) -> bool {
        &&& self.shape@.len() >= 1
        &&& shape_distinct(self.shape@)
        &&& self.width == shape_max_x(self.shape@) + 1
        &&& self.height == shape_max_y(self.shape@) + 1
    }

    /// Builds a piece from its occupied offsets; the bounding box is the
    /// smallest one containing them (1 by 1 for an empty list).
    pub fn new(shape: Vec<(usize, usize)>) -> (r: Piece)
        requires
            forall|i: int|
                0 <= i < shape@.len() ==> (#[trigger] shape@[i]).0 < usize::MAX && shape@[i].1
                    < usize::MAX,
        ensures
            r.shape@ == shape@,
            r.width == shape_max_x(shape@) + 1,
            r.height == shape_max_y(shape@) + 1,
    {
        let ghost sh = shape@;
        let mut mx: usize = 0;
        let mut my: usize = 0;
        let mut i: usize = 0;
        while i < shape.len()
            invariant
                i <= shape@.len(),
                mx < usize::MAX,
                my < usize::MAX,
                mx as int == shape_max_x(shape@.subrange(0, i as int)),
                my as int == shape_max_y(shape@.subrange(0, i as int)),
            decreases shape@.len() - i,
        {
            let (px, py) = shape[i];
            proof {
                assert(shape@.subrange(0, i + 1).drop_last() =~= shape@.subrange(0, i as int));
                assert(shape@.subrange(0, i + 1).last() == shape@[i as int]);
            }
            if px > mx {
                mx = px;
            }
            if py > my {
                my = py;
            }
            i += 1;
        }
        proof {
            assert(shape@.subrange(0, shape@.len() as int) =~= shape@);
        }
        Piece { shape, width: mx + 1, height: my + 1 }
    }

    /// Renders the piece as text, row by row: a filled block for an occupied
    /// cell, a dot otherwise, one space after each, one line per row.
    pub fn display(&self) -> String
        requires
            self.width * self.height <= crate::rules::MAX_CELLS,
    {
        let mut out: Vec<char> = Vec::new();
        let mut y: usize = 0;
        while y < self.height
            decreases self.height - y,
        {
            let mut x: usize = 0;
            while x < self.width
                decreases self.width - x,
            {
                if self.has_cell(x, y) {
                    out.push('\u{2588}');
                } else {
                    out.push('.');
                }
                out.push(' ');
                x += 1;
            }
            out.push('\n');
            y += 1;
        }
        crate::text::chars_to_string(&out)
    }

    /// Whether some occupied offset equals `(x, y)`.
    pub fn has_cell(&self, x: usize, y: usize) -> (r: bool)
        ensures
            r == self.shape@.contains((x, y)),
    {
        let mut i: usize = 0;
        while i < self.shape.len()
            invariant
                i <= self.shape@.len(),
                forall|k: int| 0 <= k < i ==> #[trigger] self.shape@[k] !== (x, y),
            decreases self.shape@.len() - i,
        {
            let (px, py) = self.shape[i];
            if px == x && py == y {
                return true;
            }
            i += 1;
        }
        false
    }
}

/// The fixed catalog of shapes the generator draws from: a single cell, lines
/// of length 2 to 4 in both orientations, a 2 by 2 and a 3 by 2 block, four L
/// orientations, four T orientations, and two Z orientations.
pub open spec fn catalog_shape(k: int) -> Seq<(usize, usize)> {
    if k == 0 {
        seq![(0usize, 0usize)]
    } else if k == 1 {
        seq![(0usize, 0usize), (1usize, 0usize)]
    } else if k == 2 {
        seq![(0usize, 0usize), (0usize, 1usize)]
    } else if k == 3 {
        seq![(0usize, 0usize), (1usize, 0usize), (2usize, 0usize)]
    } else if k == 4 {
        seq![(0usize, 0usize), (0usize, 1usize), (0usize, 2usize)]
    } else if k == 5 {
        seq![(0usize, 0usize), (1usize, 0usize), (2usize, 0usize), (3usize, 0usize)]
    } else if k == 6 {
        seq![(0usize, 0usize), (0usize, 1usize), (0usize, 2usize), (0usize, 3usize)]
    } else if k == 7 {
        seq![(0usize, 0usize), (1usize, 0usize), (0usize, 1usize), (1usize, 1usize)]
    } else if k == 8 {
        seq![
            (0usize, 0usize),
            (1usize, 0usize),
            (2usize, 0usize),
            (0usize, 1usize),
            (1usize, 1usize),
            (2usize, 1usize),
        ]
    } else if k == 9 {
        seq![(0usize, 0usize), (0usize, 1usize), (0usize, 2usize), (1usize, 2usize)]
    } else if k == 10 {
        seq![(0usize, 0usize), (1usize, 0usize), (2usize, 0usize), (0usize, 1usize)]
    } else if k == 11 {
        seq![(1usize, 0usize), (1usize, 1usize), (1usize, 2usize), (0usize, 2usize)]
    } else if k == 12 {
        seq![(0usize, 0usize), (0usize, 1usize), (1usize, 1usize), (2usize, 1usize)]
    } else if k == 13 {
        seq![(0usize, 0usize), (1usize, 0usize), (2usize, 0usize), (1usize, 1usize)]
    } else if k == 14 {
        seq![(0usize, 0usize), (0usize, 1usize), (0usize, 2usize), (1usize, 1usize)]
    } else if k == 15 {
        seq![(1usize, 0usize), (0usize, 1usize), (1usize, 1usize), (2usize, 1usize)]
    } else if k == 16 {
        seq![(1usize, 0usize), (1usize, 1usize), (1usize, 2usize), (0usize, 1usize)]
    } else if k == 17 {
        seq![(0usize, 0usize), (1usize, 0usize), (1usize, 1usize), (2usize, 1usize)]
    } else {
        seq![(1usize, 0usize), (2usize, 0usize), (0usize, 1usize), (1usize, 1usize)]
    }
}

/// The piece with the given catalog shape.
fn piece_from_catalog(k: usize) -> (r: Piece)
    requires
        k < 19,
    ensures
        r.shape@ == catalog_shape(k as int),
        r.width == shape_max_x(r.shape@) + 1,
        r.height == shape_max_y(r.shape@) + 1,
{
    let shape: Vec<(usize, usize)> = match k {
        0 => vec![(0, 0)],
        1 => vec![(0, 0), (1, 0)],
        2 => vec![(0, 0), (0, 1)],
        3 => vec![(0, 0), (1, 0), (2, 0)],
        4 => vec![(0, 0), (0, 1), (0, 2)],
        5 => vec![(0, 0), (1, 0), (2, 0), (3, 0)],
        6 => vec![(0, 0), (0, 1), (0, 2), (0, 3)],
        7 => vec![(0, 0), (1, 0), (0, 1), (1, 1)],
        8 => vec![(0, 0), (1, 0), (2, 0), (0, 1), (1, 1), (2, 1)],
        9 => vec![(0, 0), (0, 1), (0, 2), (1, 2)],
        10 => vec![(0, 0), (1, 0), (2, 0), (0, 1)],
        11 => vec![(1, 0), (1, 1), (1, 2), (0, 2)],
        12 => vec![(0, 0), (0, 1), (1, 1), (2, 1)],
        13 => vec![(0, 0), (1, 0), (2, 0), (1, 1)],
        14 => vec![(0, 0), (0, 1), (0, 2), (1, 1)],
        15 => vec![(1, 0), (0, 1), (1, 1), (2, 1)],
        16 => vec![(1, 0), (1, 1), (1, 2), (0, 1)],
        17 => vec![(0, 0), (1, 0), (1, 1), (2, 1)],
        _ => vec![(1, 0), (2, 0), (0, 1), (1, 1)],
    };
    proof {
        assert(shape@ =~= catalog_shape(k as int));
    }
    Piece::new(shape)
}

/// Declares rand's `StdRng` so it can stand in a field; the value itself is
/// opaque to the verifier.
#[verifier::external_type_specification]
#[verifier::external_body]
pub struct ExStdRng(rand::rngs::StdRng);

/// What the `idx`-th draw of a generator seeded with `seed` returns: an index
/// into the shape catalog. A seeded `StdRng` is a deterministic stream, so the
/// draw is a function of the seed and the draw position alone.
pub uninterp spec fn catalog_draw(seed: u64, idx: nat) -> int;

/// A deterministic, seed-reproducible source of pieces: one catalog piece per
/// draw.
pub struct PieceGenerator {
    rng: rand::rngs::StdRng,
    trace: Ghost<(u64, nat)>,
}

/// Relies on `StdRng::gen_range` (rand's `Rng` trait) on a generator seeded
/// with `seed_from_u64`: `StdRng` in this rand version is the ChaCha12 block
/// cipher, a deterministic stream, so the draw depends only on the seed and on
/// how many draws came before it, and `gen_range(0u32..19)` lands in `0..19`.
/// The draw is taken as a `u32`, whose uniform sampling path is independent
/// of the machine's pointer width. The ghost trace records that seed and draw
/// position; both fields are private, and the functions of this module keep
/// the trace in step with the real generator state, which makes the contract
/// meaningful.
#[verifier::external_body]
fn draw_catalog_index(g: &mut PieceGenerator) -> (r: usize)
    ensures
        final(g).trace@ == ((old(g).trace@.0, old(g).trace@.1 + 1)),
        r < 19,
        r as int == catalog_draw(old(g).trace@.0, old(g).trace@.1),
{
    rand::Rng::gen_range(&mut g.rng, 0u32..19) as usize
}

/// Relies on `StdRng::seed_from_u64` (rand_core's `SeedableRng`): it builds
/// the generator state that `draw_catalog_index` reads, deterministically from
/// the seed.
#[verifier::external_body]
fn seeded_rng(seed: u64) -> rand::rngs::StdRng {
    <rand::rngs::StdRng as rand::SeedableRng>::seed_from_u64(seed)
}

/// Relies on `thread_rng` + `gen_range`: the draw lands in `0..19`; nothing
/// more is assumed of a thread-local random draw.
#[verifier::external_body]
fn random_catalog_index() -> (r: usize)
    ensures
        r < 19,
{
    rand::Rng::gen_range(&mut rand::thread_rng(), 0..19)
}

impl PieceGenerator {
    /// The seed this generator was built with.
    pub closed spec fn seed(self) -> u64 {
        self.trace@.0
    }

    /// How many pieces this generator has produced so far.
    pub closed spec fn draws(self) -> nat {
        self.trace@.1
    }

    /// A generator whose whole output sequence is determined by `seed`.
    pub fn new(seed: u64) -> (r: PieceGenerator)
        ensures
            r.seed() == seed,
            r.draws() == 0,
    {
        PieceGenerator { rng: seeded_rng(seed), trace: Ghost((seed, 0nat)) }
    }

    /// Draws the next piece. The shape is a function of the seed and of the
    /// number of draws made so far, so two generators built with the same seed
    /// produce the same sequence of pieces; the bounding box is the smallest
    /// one containing the shape, so the whole piece is reproduced.
    pub fn next(&mut self) -> (r: Piece)
        ensures
            final(self).seed() == old(self).seed(),
            final(self).draws() == old(self).draws() + 1,
            r.shape@ == nth_piece_shape(old(self).seed(), old(self).draws()),
            r.width == shape_max_x(r.shape@) + 1,
            r.height == shape_max_y(r.shape@) + 1,
    {
        let k = draw_catalog_index(self);
        piece_from_catalog(k)
    }
}

/// The shape of the `idx`-th piece drawn from a generator seeded with `seed`.
pub open spec fn nth_piece_shape(seed: u64, idx: nat) -> Seq<(usize, usize)> {
    catalog_shape(catalog_draw(seed, idx))
}

impl Piece {
    /// A uniformly random catalog piece from the thread-local generator; use
    /// `PieceGenerator` where reproducibility matters.
    pub fn generate_random() -> (r: Piece)
        ensures
            exists|k: int| 0 <= k < 19 && r.shape@ == catalog_shape(k),
            r.width == shape_max_x(r.shape@) + 1,
            r.height == shape_max_y(r.shape@) + 1,
    {
        let k = random_catalog_index();
        piece_from_catalog(k)
    }

    /// A seeded piece source: the same seed yields the same sequence.
    pub fn generate_sequence(seed: u64) -> (r: PieceGenerator)
        ensures
            r.seed() == seed,
            r.draws() == 0,
    {
        PieceGenerator::new(seed)
    }
}

} // verus!
