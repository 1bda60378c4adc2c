//! The 64x32 monochrome framebuffer and its XOR sprite blit.
use vstd::prelude::*;

verus! {

pub const WIDTH: usize = 64;

pub const HEIGHT: usize = 32;

pub const PIXELS: usize = 2048;

/// Whether bit `i` of a sprite row is set, bit 0 being the most significant.
pub open spec fn sprite_bit(row: u8, i: int) -> bool {
    (row >> ((7 - i) as u8)) & 1u8 == 1u8
}

/// Column offset inside a sprite of screen column `px` for a sprite drawn at
/// column `x`, with wraparound.
pub open spec fn col_offset(x: int, px: int) -> int {
    (px - x % 64 + 64) % 64
}

/// Whether sprite row `j` (byte `row`), drawn at `(x, y)`, covers pixel `(px, py)`
/// with a set bit.
pub open spec fn row_hits(x: int, y: int, row: u8, j: int, px: int, py: int) -> bool {
    (y + j) % 32 == py && col_offset(x, px) < 8 && sprite_bit(row, col_offset(x, px))
}

/// Whether the first `n` rows of `sprite` flip pixel `(px, py)` an odd number of times.
pub open spec fn toggled(x: int, y: int, sprite: Seq<u8>, n: int, px: int, py: int) -> bool
    decreases n,
{
    if n <= 0 {
        false
    } else {
        toggled(x, y, sprite, n - 1, px, py) != row_hits(x, y, sprite[n - 1], n - 1, px, py)
    }
}

/// Whether sprite row `j` covers pixel `(px, py)` with a set bit among its
/// first `i` columns.
pub open spec fn row_hits_before(x: int, y: int, row: u8, j: int, i: int, px: int, py: int) -> bool {
    row_hits(x, y, row, j, px, py) && col_offset(x, px) < i
}

/// Pixel `(px, py)` of a framebuffer stored row by row.
pub open spec fn pixel_of(s: Seq<bool>, px: int, py: int) -> bool {
    s[px + py * 64]
}

/// The framebuffer after blitting `sprite` at `(x, y)`.
pub open spec fn drawn(s: Seq<bool>, x: int, y: int, sprite: Seq<u8>) -> Seq<bool> {
    Seq::new(2048, |k: int| s[k] != toggled(x, y, sprite, sprite.len() as int, k % 64, k / 64))
}

/// Whether blitting `sprite` at `(x, y)` turns some lit pixel off: some row
/// covers a pixel that is lit when that row is drawn.
pub open spec fn collides(s: Seq<bool>, x: int, y: int, sprite: Seq<u8>) -> bool {
    collides_upto(s, x, y, sprite, sprite.len() as int)
}

/// Whether one of the first `n` rows of `sprite` turns a lit pixel off.
pub open spec fn collides_upto(s: Seq<bool>, x: int, y: int, sprite: Seq<u8>, n: int) -> bool {
    exists|j: int, px: int, py: int|
        0 <= j < n && 0 <= px < 64 && 0 <= py < 32
        && #[trigger] row_hits(x, y, sprite[j], j, px, py)
        && (pixel_of(s, px, py) != toggled(x, y, sprite, j, px, py))
}

/// Whether row `j` of `sprite`, among its first `i` columns, turns a lit pixel off.
pub open spec fn row_collides(s: Seq<bool>, x: int, y: int, sprite: Seq<u8>, j: int, i: int) -> bool {
    exists|px: int, py: int|
        0 <= px < 64 && 0 <= py < 32
        && #[trigger] row_hits_before(x, y, sprite[j], j, i, px, py)
        && (pixel_of(s, px, py) != toggled(x, y, sprite, j, px, py))
}

proof fn lemma_column(x: int, i: int, px: int)
    requires
        0 <= x,
        0 <= i < 8,
        0 <= px < 64,
    ensures
        (col_offset(x, px) == i) == (px == (x % 64 + i) % 64),
{
}

proof fn lemma_collides_next_row(s: Seq<bool>, x: int, y: int, sprite: Seq<u8>, j: int)
    requires
        0 <= j < sprite.len(),
    ensures
        collides_upto(s, x, y, sprite, j + 1)
            == (collides_upto(s, x, y, sprite, j) || row_collides(s, x, y, sprite, j, 8)),
{
    if collides_upto(s, x, y, sprite, j + 1) {
        let (j2, px, py) = choose|j2: int, px: int, py: int|
            0 <= j2 < j + 1 && 0 <= px < 64 && 0 <= py < 32
            && #[trigger] row_hits(x, y, sprite[j2], j2, px, py)
            && (pixel_of(s, px, py) != toggled(x, y, sprite, j2, px, py));
        if j2 == j {
            assert(row_hits_before(x, y, sprite[j], j, 8, px, py));
        }
    }
    if row_collides(s, x, y, sprite, j, 8) {
        let (px, py) = choose|px: int, py: int|
            0 <= px < 64 && 0 <= py < 32
            && #[trigger] row_hits_before(x, y, sprite[j], j, 8, px, py)
            && (pixel_of(s, px, py) != toggled(x, y, sprite, j, px, py));
        assert(row_hits(x, y, sprite[j], j, px, py));
    }
}

proof fn lemma_not_toggled(x: int, y: int, sprite: Seq<u8>, n: int, px: int, py: int)
    requires
        forall|j: int| 0 <= j < n ==> !#[trigger] row_hits(x, y, sprite[j], j, px, py),
    ensures
        !toggled(x, y, sprite, n, px, py),
    decreases n,
{
    if n > 0 {
        lemma_not_toggled(x, y, sprite, n - 1, px, py);
    }
}

/// Drawing the same sprite twice at the same place leaves the framebuffer as
/// it was.
pub proof fn lemma_draw_twice_restores(s: Seq<bool>, x: int, y: int, sprite: Seq<u8>)
    requires
        s.len() == 2048,
    ensures
        drawn(drawn(s, x, y, sprite), x, y, sprite) == s,
{
    assert(drawn(drawn(s, x, y, sprite), x, y, sprite) =~= s);
}

proof fn lemma_first_hit(x: int, y: int, sprite: Seq<u8>, j: int, px: int, py: int)
    requires
        0 <= j < sprite.len(),
        row_hits(x, y, sprite[j], j, px, py),
    ensures
        exists|j0: int| 0 <= j0 <= j && #[trigger] row_hits(x, y, sprite[j0], j0, px, py)
            && !toggled(x, y, sprite, j0, px, py),
    decreases j,
{
    if toggled(x, y, sprite, j, px, py) {
        assert(exists|j1: int| 0 <= j1 < j && #[trigger] row_hits(x, y, sprite[j1], j1, px, py)) by {
            if !exists|j1: int| 0 <= j1 < j && #[trigger] row_hits(x, y, sprite[j1], j1, px, py) {
                lemma_not_toggled(x, y, sprite, j, px, py);
            }
        }
        let j1 = choose|j1: int| 0 <= j1 < j && #[trigger] row_hits(x, y, sprite[j1], j1, px, py);
        lemma_first_hit(x, y, sprite, j1, px, py);
    }
}

/// Of two identical draws, the second reports a collision whenever some set
/// bit of the sprite lands on a pixel that is lit after the first.
pub proof fn lemma_overlap_collides(s: Seq<bool>, x: int, y: int, sprite: Seq<u8>, j: int, px: int, py: int)
    requires
        s.len() == 2048,
        0 <= j < sprite.len(),
        0 <= px < 64,
        0 <= py < 32,
        row_hits(x, y, sprite[j], j, px, py),
        pixel_of(drawn(s, x, y, sprite), px, py),
    ensures
        collides(drawn(s, x, y, sprite), x, y, sprite),
{
    lemma_first_hit(x, y, sprite, j, px, py);
    let j0 = choose|j0: int| 0 <= j0 <= j && #[trigger] row_hits(x, y, sprite[j0], j0, px, py)
        && !toggled(x, y, sprite, j0, px, py);
    assert(row_hits(x, y, sprite[j0], j0, px, py));
}

/// For a sprite no taller than the screen, the second of two identical draws
/// reports a collision exactly when some set bit of the sprite lands on a pixel
/// that is lit after the first draw.
pub proof fn lemma_redraw_collides(s: Seq<bool>, x: int, y: int, sprite: Seq<u8>)
    requires
        s.len() == 2048,
        sprite.len() <= 32,
        0 <= y,
    ensures
        collides(drawn(s, x, y, sprite), x, y, sprite) == exists|j: int, px: int, py: int|
            0 <= j < sprite.len() && 0 <= px < 64 && 0 <= py < 32
            && #[trigger] row_hits(x, y, sprite[j], j, px, py)
            && pixel_of(drawn(s, x, y, sprite), px, py),
{
    let mid = drawn(s, x, y, sprite);
    assert forall|j: int, px: int, py: int|
        0 <= j < sprite.len() && 0 <= px < 64 && 0 <= py < 32
        && #[trigger] row_hits(x, y, sprite[j], j, px, py) implies
        !toggled(x, y, sprite, j, px, py) by {
        assert forall|j2: int| 0 <= j2 < j implies !#[trigger] row_hits(x, y, sprite[j2], j2, px, py) by {
            assert((y + j2) % 32 != (y + j) % 32);
        }
        lemma_not_toggled(x, y, sprite, j, px, py);
    }
}

/// A one-row sprite drawn at column 60 lights its first four bits in columns
/// 60 to 63 and its last four, wrapped around, in columns 0 to 3, all on the
/// same row.
pub proof fn lemma_wraparound_row(s: Seq<bool>, y: int, b: u8, px: int, py: int)
    requires
        s.len() == 2048,
        0 <= y,
        0 <= px < 64,
        0 <= py < 32,
    ensures
        pixel_of(drawn(s, 60, y, seq![b]), px, py) == (pixel_of(s, px, py) != (py == y % 32 && (
            (60 <= px < 64 && sprite_bit(b, px - 60)) || (0 <= px < 4 && sprite_bit(b, px + 4))))),
{
    assert(toggled(60, y, seq![b], 0, px, py) == false);
    assert((px + py * 64) % 64 == px && (px + py * 64) / 64 == py);
}

/// The monochrome framebuffer, 64 columns by 32 rows.
pub struct Screen {
    pixels: Vec<bool>,
}

impl View for Screen {
    type V = Seq<bool>;

    closed spec fn view(&self) -> Seq<bool> {
        self.pixels@
    }
}

impl Screen {
    pub open spec fn wf(&self) -> bool {
        self@.len() == 2048
    }

    /// A framebuffer with every pixel off.
    pub fn new() -> (r: Screen)
        ensures
            r.wf(),
            r@ == Seq::new(2048, |k: int| false),
    {
        let mut pixels: Vec<bool> = Vec::new();
        while pixels.len() < PIXELS
            invariant
                pixels.len() <= 2048,
                forall|k: int| 0 <= k < pixels.len() ==> !pixels@[k],
            decreases 2048 - pixels.len(),
        {
            pixels.push(false);
        }
        let r = Screen { pixels };
        assert(r@ =~= Seq::new(2048, |k: int| false));
        r
    }

    /// The pixel at column `x`, row `y`.
    pub fn get(&self, x: usize, y: usize) -> (r: bool)
        requires
            self.wf(),
            x < 64,
            y < 32,
        ensures
            r == pixel_of(self@, x as int, y as int),
    {
        self.pixels[x + y * WIDTH]
    }

    /// Sets the pixel at column `x`, row `y`.
    pub fn set(&mut self, x: usize, y: usize, v: bool)
        requires
            old(self).wf(),
            x < 64,
            y < 32,
        ensures
            final(self)@ == old(self)@.update(x + y * 64, v),
    {
        self.pixels.set(x + y * WIDTH, v);
    }

    /// Turns every pixel off.
    pub fn clear(&mut self)
        requires
            old(self).wf(),
        ensures
            final(self)@ == Seq::new(2048, |k: int| false),
    {
        let mut k: usize = 0;
        while k < PIXELS
            invariant
                self.wf(),
                k <= 2048,
                forall|m: int| 0 <= m < k ==> !self@[m],
            decreases 2048 - k,
        {
            self.pixels.set(k, false);
            k += 1;
        }
        assert(self@ =~= Seq::new(2048, |k: int| false));
    }

    /// XORs `sprite` onto the framebuffer with its top-left corner at `(x, y)`,
    /// one byte per row, most significant bit leftmost, each pixel wrapping
    /// around both edges. Returns whether some lit pixel was turned off.
    pub fn draw(&mut self, x: usize, y: usize, sprite: &[u8]) -> (r: bool)
        requires
            old(self).wf(),
        ensures
            final(self).wf(),
            final(self)@ == drawn(old(self)@, x as int, y as int, sprite@),
            r == collides(old(self)@, x as int, y as int, sprite@),
    {
        let ghost s0 = self@;
        let xr = x % WIDTH;
        let yr = y % HEIGHT;
        let mut flipped = false;
        let mut j: usize = 0;
        while j < sprite.len()
            invariant
                self.wf(),
                j <= sprite@.len(),
                xr == x % 64,
                yr == y % 32,
                forall|px: int, py: int| 0 <= px < 64 && 0 <= py < 32 ==>
                    #[trigger] pixel_of(self@, px, py) == (pixel_of(s0, px, py)
                        != toggled(x as int, y as int, sprite@, j as int, px, py)),
                flipped == collides_upto(s0, x as int, y as int, sprite@, j as int),
            decreases sprite@.len() - j,
        {
            let row = sprite[j];
            let cy = (yr + j % HEIGHT) % HEIGHT;
            let ghost pre = self@;
            let ghost flipped_before = flipped;
            assert(cy == (y + j) % 32);
            let mut i: usize = 0;
            while i < 8
                invariant
                    self.wf(),
                    j < sprite@.len(),
                    row == sprite@[j as int],
                    xr == x % 64,
                    cy == (y + j) % 32,
                    i <= 8,
                    forall|px: int, py: int| 0 <= px < 64 && 0 <= py < 32 ==>
                        #[trigger] pixel_of(self@, px, py) == (pixel_of(s0, px, py)
                            != (toggled(x as int, y as int, sprite@, j as int, px, py)
                            != row_hits_before(x as int, y as int, row, j as int, i as int, px, py))),
                    flipped == (flipped_before
                        || row_collides(s0, x as int, y as int, sprite@, j as int, i as int)),
                decreases 8 - i,
            {
                let cx = (xr + i) % WIDTH;
                let bit = (row >> (7 - i) as u8) & 1u8 == 1u8;
                let lit = self.get(cx, cy);
                let ghost before = self@;
                proof {
                    lemma_column(x as int, i as int, cx as int);
                    assert forall|px: int, py: int| 0 <= px < 64 && 0 <= py < 32 implies
                        row_hits_before(x as int, y as int, row, j as int, i as int + 1, px, py)
                        == (row_hits_before(x as int, y as int, row, j as int, i as int, px, py)
                            || (px == cx && py == cy && bit)) by {
                        lemma_column(x as int, i as int, px);
                    }
                }
                if bit && lit {
                    flipped = true;
                    assert(row_hits_before(x as int, y as int, row, j as int, i as int + 1, cx as int, cy as int));
                }
                self.set(cx, cy, bit != lit);
                proof {
                    assert forall|px: int, py: int| 0 <= px < 64 && 0 <= py < 32 implies
                        #[trigger] pixel_of(self@, px, py) == (pixel_of(s0, px, py)
                            != (toggled(x as int, y as int, sprite@, j as int, px, py)
                            != row_hits_before(x as int, y as int, row, j as int, i as int + 1, px, py))) by {
                        assert(pixel_of(before, px, py) == (pixel_of(s0, px, py)
                            != (toggled(x as int, y as int, sprite@, j as int, px, py)
                            != row_hits_before(x as int, y as int, row, j as int, i as int, px, py))));
                    }
                    if row_collides(s0, x as int, y as int, sprite@, j as int, i as int + 1) {
                        let (px, py) = choose|px: int, py: int|
                            0 <= px < 64 && 0 <= py < 32
                            && #[trigger] row_hits_before(x as int, y as int, row, j as int, i as int + 1, px, py)
                            && (pixel_of(s0, px, py) != toggled(x as int, y as int, sprite@, j as int, px, py));
                        if !(px == cx && py == cy) {
                            assert(row_hits_before(x as int, y as int, row, j as int, i as int, px, py));
                        } else {
                            assert(pixel_of(before, px, py) == (pixel_of(s0, px, py)
                                != (toggled(x as int, y as int, sprite@, j as int, px, py)
                                != row_hits_before(x as int, y as int, row, j as int, i as int, px, py))));
                        }
                    }
                    if row_collides(s0, x as int, y as int, sprite@, j as int, i as int) {
                        let (px, py) = choose|px: int, py: int|
                            0 <= px < 64 && 0 <= py < 32
                            && #[trigger] row_hits_before(x as int, y as int, row, j as int, i as int, px, py)
                            && (pixel_of(s0, px, py) != toggled(x as int, y as int, sprite@, j as int, px, py));
                        assert(row_hits_before(x as int, y as int, row, j as int, i as int + 1, px, py));
                    }
                }
                i += 1;
            }
            proof {
                lemma_collides_next_row(s0, x as int, y as int, sprite@, j as int);
                assert forall|px: int, py: int| 0 <= px < 64 && 0 <= py < 32 implies
                    #[trigger] pixel_of(self@, px, py) == (pixel_of(s0, px, py)
                        != toggled(x as int, y as int, sprite@, j as int + 1, px, py)) by {
                    assert(row_hits_before(x as int, y as int, row, j as int, 8, px, py)
                        == row_hits(x as int, y as int, row, j as int, px, py));
                }
            }
            j += 1;
        }
        proof {
            assert forall|k: int| 0 <= k < 2048 implies self@[k] == drawn(s0, x as int, y as int, sprite@)[k] by {
                assert(pixel_of(self@, k % 64, k / 64) == self@[k]);
                assert(pixel_of(s0, k % 64, k / 64) == s0[k]);
            }
            assert(self@ =~= drawn(s0, x as int, y as int, sprite@));
        }
        flipped
    }
}

} // verus!
