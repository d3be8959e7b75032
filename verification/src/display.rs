//! The monochrome framebuffer: one byte per pixel, cleared, XOR-blitted
//! with 8-pixel-wide sprites, and snapshotted for the environment.
//!
//! A sprite is `height` rows of one byte each; bit 7 of a row is its
//! leftmost pixel. Drawing XORs each set sprite bit onto the screen;
//! pixels that fall outside the screen are silently dropped, with no
//! wraparound. The draw reports a collision when any pixel that was
//! already set takes part in the operation.

use vstd::prelude::*;

use crate::constants::{SCREEN_SIZE, SCREEN_SIZE_X, SCREEN_SIZE_Y};

verus! {

/// Whether a sprite draw turned any set pixel off.
#[derive(Debug, Clone, Copy, PartialEq, Eq, Structural)]
pub enum DisplayState {
    Changed,
    Unchanged,
}

/// An all-dark screen.
pub open spec fn blank_screen() -> Seq<u8> {
    Seq::new(SCREEN_SIZE as nat, |j: int| 0u8)
}

/// Whether the sprite bit at `row`, `col` (column 0 is bit 7) is set.
pub open spec fn sprite_pixel_on(data: Seq<u8>, row: int, col: int) -> bool {
    data[row] & (0x80u8 >> (col as u8)) != 0
}

/// A pixel byte after an XOR with a set sprite bit.
pub open spec fn pixel_flipped(b: u8) -> u8 {
    b ^ 1
}

/// Whether the partial draw of a sprite at `x`, `y` — all rows before
/// `rows`, and the first `cols` columns of row `rows` — flips the screen
/// pixel at `px`, `py`.
pub open spec fn draw_hits(
    x: int,
    y: int,
    data: Seq<u8>,
    rows: int,
    cols: int,
    px: int,
    py: int,
) -> bool {
    let row = py - y;
    let col = px - x;
    &&& 0 <= col < 8
    &&& 0 <= row
    &&& (row < rows || (row == rows && col < cols))
    &&& sprite_pixel_on(data, row, col)
}

/// `draw_hits` phrased over a linear framebuffer index.
pub open spec fn draw_hits_index(
    x: int,
    y: int,
    data: Seq<u8>,
    rows: int,
    cols: int,
    j: int,
) -> bool {
    draw_hits(x, y, data, rows, cols, j % (SCREEN_SIZE_X as int), j / (SCREEN_SIZE_X as int))
}

/// The screen after the partial draw described by `rows` and `cols`.
pub open spec fn draw_upto(
    screen: Seq<u8>,
    x: int,
    y: int,
    data: Seq<u8>,
    rows: int,
    cols: int,
) -> Seq<u8> {
    Seq::new(
        SCREEN_SIZE as nat,
        |j: int|
            if draw_hits_index(x, y, data, rows, cols, j) {
                pixel_flipped(screen[j])
            } else {
                screen[j]
            },
    )
}

/// Whether the partial draw touches any pixel that was already set.
pub open spec fn collision_upto(
    screen: Seq<u8>,
    x: int,
    y: int,
    data: Seq<u8>,
    rows: int,
    cols: int,
) -> bool {
    exists|row: int, col: int|
        {
            &&& 0 <= row
            &&& 0 <= col < 8
            &&& (row < rows || (row == rows && col < cols))
            &&& #[trigger] sprite_pixel_on(data, row, col)
            &&& x + col < SCREEN_SIZE_X
            &&& y + row < SCREEN_SIZE_Y
            &&& screen[x + col + (y + row) * SCREEN_SIZE_X] == 1
        }
}

/// The screen after a full sprite draw.
pub open spec fn spec_draw(screen: Seq<u8>, x: int, y: int, height: int, data: Seq<u8>) -> Seq<
    u8,
> {
    draw_upto(screen, x, y, data, height, 0)
}

/// Whether a full sprite draw collides with an already-set pixel.
pub open spec fn spec_collision(
    screen: Seq<u8>,
    x: int,
    y: int,
    height: int,
    data: Seq<u8>,
) -> bool {
    collision_upto(screen, x, y, data, height, 0)
}

/// An immutable copy of the framebuffer handed to the environment.
pub struct Snapshot {
    screen: Vec<u8>,
}

impl Snapshot {
    /// The pixel bytes held by the snapshot.
    pub closed spec fn screen(&self) -> Seq<u8> {
        self.screen@
    }

    /// A snapshot always holds a full screen.
    pub closed spec fn wf(&self) -> bool {
        self.screen@.len() == SCREEN_SIZE
    }

    /// The pixel byte at `x`, `y`.
    pub fn get_pixel(&self, x: usize, y: usize) -> (p: u8)
        requires
            self.wf(),
            x < SCREEN_SIZE_X,
            y < SCREEN_SIZE_Y,
        ensures
            p == self.screen()[x + y * SCREEN_SIZE_X],
    {
        self.screen[x + y * SCREEN_SIZE_X]
    }
}

/// Capability the machine needs from a display device; implementations
/// are shared across threads.
pub trait Display: Send {
    /// The current pixel bytes, one per pixel, row by row.
    spec fn screen(&self) -> Seq<u8>;

    /// The device always holds a full screen.
    spec fn wf(&self) -> bool;

    /// Read the framebuffer.
    fn get_screen(&self) -> (r: &Vec<u8>)
        requires
            self.wf(),
        ensures
            r@ == self.screen(),
            r@.len() == SCREEN_SIZE,
    ;

    /// Replace the whole framebuffer from a saved copy.
    fn set_screen(&mut self, screen: &Vec<u8>)
        requires
            old(self).wf(),
            screen@.len() == SCREEN_SIZE,
        ensures
            final(self).wf(),
            final(self).screen() == screen@,
    ;

    /// Turn every pixel off.
    fn clear(&mut self)
        requires
            old(self).wf(),
        ensures
            final(self).wf(),
            final(self).screen() == blank_screen(),
    ;

    /// XOR-blit a sprite of `height` rows at `x`, `y`, reporting whether
    /// any already-set pixel took part in the operation.
    fn draw_sprite(&mut self, x: usize, y: usize, height: u8, data: &Vec<u8>) -> (r: DisplayState)
        requires
            old(self).wf(),
            data@.len() >= height,
            x <= 0xFF,
            y <= 0xFF,
        ensures
            final(self).wf(),
            final(self).screen() == spec_draw(
                old(self).screen(),
                x as int,
                y as int,
                height as int,
                data@,
            ),
            r == (if spec_collision(old(self).screen(), x as int, y as int, height as int, data@) {
                DisplayState::Changed
            } else {
                DisplayState::Unchanged
            }),
    ;

    /// An immutable copy of the framebuffer.
    fn get_snapshot(&self) -> (r: Snapshot)
        requires
            self.wf(),
        ensures
            r.wf(),
            r.screen() == self.screen(),
    ;
}

/// The machine's own framebuffer.
pub struct VmDisplay {
    screen: Vec<u8>,
}

/// Copy a byte vector element by element.
pub(crate) fn clone_bytes(v: &Vec<u8>) -> (r: Vec<u8>)
    ensures
        r@ == v@,
{
    let mut r: Vec<u8> = Vec::new();
    let mut i: usize = 0;
    while i < v.len()
        invariant
            i <= v.len(),
            r@ == v@.subrange(0, i as int),
        decreases v.len() - i,
    {
        r.push(v[i]);
        assert(r@ =~= v@.subrange(0, i + 1 as int));
        i = i + 1;
    }
    assert(r@ =~= v@);
    r
}

impl VmDisplay {
    /// A fresh display is dark.
    pub fn new() -> (d: VmDisplay)
        ensures
            d.wf(),
            d.screen() == blank_screen(),
    {
        let mut screen: Vec<u8> = Vec::new();
        let mut i: usize = 0;
        while i < SCREEN_SIZE
            invariant
                i <= SCREEN_SIZE,
                screen@.len() == i,
                forall|j: int| 0 <= j < i ==> screen@[j] == 0u8,
            decreases SCREEN_SIZE - i,
        {
            screen.push(0u8);
            i = i + 1;
        }
        let d = VmDisplay { screen };
        proof {
            assert(d.screen() =~= blank_screen());
        }
        d
    }
}

impl Display for VmDisplay {
    closed spec fn screen(&self) -> Seq<u8> {
        self.screen@
    }

    closed spec fn wf(&self) -> bool {
        self.screen@.len() == SCREEN_SIZE
    }

    fn get_screen(&self) -> (r: &Vec<u8>) {
        &self.screen
    }

    fn set_screen(&mut self, screen: &Vec<u8>) {
        self.screen = clone_bytes(screen);
    }

    fn clear(&mut self) {
        let mut i: usize = 0;
        while i < self.screen.len()
            invariant
                i <= self.screen@.len(),
                self.screen@.len() == old(self).screen@.len(),
                forall|j: int| 0 <= j < i ==> self.screen@[j] == 0u8,
            decreases self.screen.len() - i,
        {
            self.screen[i] = 0u8;
            i = i + 1;
        }
        proof {
            assert(self.screen@ =~= blank_screen());
        }
    }

    fn draw_sprite(&mut self, x: usize, y: usize, height: u8, data: &Vec<u8>) -> (r: DisplayState) {
        let ghost orig: Seq<u8> = self.screen@;
        let mut state = DisplayState::Unchanged;
        let mut sy: usize = 0;
        proof {
            assert(self.screen@ =~= draw_upto(orig, x as int, y as int, data@, 0, 0));
        }
        while sy < height as usize
            invariant
                sy <= height,
                x <= 0xFF,
                y <= 0xFF,
                data@.len() >= height,
                self.screen@.len() == SCREEN_SIZE,
                self.screen@ == draw_upto(orig, x as int, y as int, data@, sy as int, 0),
                orig.len() == SCREEN_SIZE,
                state == (if collision_upto(orig, x as int, y as int, data@, sy as int, 0) {
                    DisplayState::Changed
                } else {
                    DisplayState::Unchanged
                }),
            decreases height - sy,
        {
            let pixels = data[sy];
            let mut sx: usize = 0;
            while sx < 8
                invariant
                    sy < height,
                    sx <= 8,
                    x <= 0xFF,
                    y <= 0xFF,
                    data@.len() >= height,
                    pixels == data@[sy as int],
                    self.screen@.len() == SCREEN_SIZE,
                    self.screen@ == draw_upto(orig, x as int, y as int, data@, sy as int, sx as int),
                    orig.len() == SCREEN_SIZE,
                    state == (if collision_upto(orig, x as int, y as int, data@, sy as int, sx as int) {
                        DisplayState::Changed
                    } else {
                        DisplayState::Unchanged
                    }),
                decreases 8 - sx,
            {
                let ghost pre: Seq<u8> = self.screen@;
                let mask: u8 = 0x80u8 >> (sx as u8);
                if pixels & mask != 0 {
                    assert(sprite_pixel_on(data@, sy as int, sx as int));
                    let px = x + sx;
                    let py = y + sy;
                    if px < SCREEN_SIZE_X && py < SCREEN_SIZE_Y {
                        let idx = px + py * SCREEN_SIZE_X;
                        assert(idx < SCREEN_SIZE);
                        proof {
                            lemma_pixel_index(x as int, y as int, sx as int, sy as int);
                            // The pixel has not been touched yet, so it still
                            // holds its pre-draw value.
                            assert(!draw_hits_index(x as int, y as int, data@, sy as int, sx as int,
                                idx as int));
                            assert(self.screen@[idx as int] == orig[idx as int]);
                        }
                        let prev = self.screen[idx];
                        if prev == 1 {
                            state = DisplayState::Changed;
                        }
                        self.screen[idx] = prev ^ 1;
                        proof {
                            lemma_draw_step_in_bounds(orig, x as int, y as int, data@, sy as int, sx as int);
                            assert(self.screen@ =~= draw_upto(orig, x as int, y as int, data@, sy as int, sx + 1 as int));
                            lemma_collision_step(orig, x as int, y as int, data@, sy as int, sx as int);
                        }
                    } else {
                        proof {
                            lemma_draw_step_dropped(orig, x as int, y as int, data@, sy as int, sx as int, px as int, py as int);
                            assert(self.screen@ =~= draw_upto(orig, x as int, y as int, data@, sy as int, sx + 1 as int));
                        }
                    }
                } else {
                    proof {
                        lemma_draw_step_off(orig, x as int, y as int, data@, sy as int, sx as int);
                        assert(self.screen@ =~= draw_upto(orig, x as int, y as int, data@, sy as int, sx + 1 as int));
                    }
                }
                sx = sx + 1;
            }
            proof {
                lemma_row_rollover(orig, x as int, y as int, data@, sy as int);
                assert(self.screen@ =~= draw_upto(orig, x as int, y as int, data@, sy + 1 as int, 0));
            }
            sy = sy + 1;
        }
        state
    }

    fn get_snapshot(&self) -> (r: Snapshot) {
        Snapshot { screen: clone_bytes(&self.screen) }
    }
}

/// For an in-bounds pixel, the linear framebuffer index decomposes back
/// into the same column and row.
proof fn lemma_pixel_index(x: int, y: int, sx: int, sy: int)
    requires
        0 <= x,
        0 <= y,
        0 <= sx,
        0 <= sy,
        x + sx < SCREEN_SIZE_X,
        y + sy < SCREEN_SIZE_Y,
    ensures
        (x + sx + (y + sy) * SCREEN_SIZE_X) % (SCREEN_SIZE_X as int) == x + sx,
        (x + sx + (y + sy) * SCREEN_SIZE_X) / (SCREEN_SIZE_X as int) == y + sy,
        0 <= x + sx + (y + sy) * SCREEN_SIZE_X < SCREEN_SIZE,
{
    let px = x + sx;
    let py = y + sy;
    let j = px + py * (SCREEN_SIZE_X as int);
    assert(j % (SCREEN_SIZE_X as int) == px && j / (SCREEN_SIZE_X as int) == py) by (nonlinear_arith)
        requires
            0 <= px < SCREEN_SIZE_X,
            0 <= py,
            j == px + py * (SCREEN_SIZE_X as int),
    ;
    assert(j < SCREEN_SIZE) by (nonlinear_arith)
        requires
            0 <= px < SCREEN_SIZE_X,
            0 <= py < SCREEN_SIZE_Y,
            j == px + py * (SCREEN_SIZE_X as int),
    ;
}

/// Advancing one column over an unset sprite bit leaves the partial draw
/// and the collision state unchanged.
proof fn lemma_draw_step_off(screen: Seq<u8>, x: int, y: int, data: Seq<u8>, r: int, c: int)
    requires
        screen.len() == SCREEN_SIZE,
        0 <= r,
        0 <= c < 8,
        !sprite_pixel_on(data, r, c),
    ensures
        draw_upto(screen, x, y, data, r, c + 1) == draw_upto(screen, x, y, data, r, c),
        collision_upto(screen, x, y, data, r, c + 1) == collision_upto(screen, x, y, data, r, c),
{
    assert forall|j: int| 0 <= j < SCREEN_SIZE implies draw_hits_index(x, y, data, r, c + 1, j) == draw_hits_index(x, y, data, r, c, j) by {
    }
    assert(draw_upto(screen, x, y, data, r, c + 1) =~= draw_upto(screen, x, y, data, r, c));
    if collision_upto(screen, x, y, data, r, c) {
        assert(collision_upto(screen, x, y, data, r, c + 1));
    }
    if collision_upto(screen, x, y, data, r, c + 1) {
        let (row, col) = choose|row: int, col: int|
            {
                &&& 0 <= row
                &&& 0 <= col < 8
                &&& (row < r || (row == r && col < c + 1))
                &&& #[trigger] sprite_pixel_on(data, row, col)
                &&& x + col < SCREEN_SIZE_X
                &&& y + row < SCREEN_SIZE_Y
                &&& screen[x + col + (y + row) * SCREEN_SIZE_X] == 1
            };
        assert(!(row == r && col == c));
        assert(collision_upto(screen, x, y, data, r, c));
    }
}

/// Advancing one column over a set sprite bit whose pixel falls outside
/// the screen leaves the partial draw and the collision state unchanged.
proof fn lemma_draw_step_dropped(
    screen: Seq<u8>,
    x: int,
    y: int,
    data: Seq<u8>,
    r: int,
    c: int,
    px: int,
    py: int,
)
    requires
        screen.len() == SCREEN_SIZE,
        0 <= x,
        0 <= y,
        0 <= r,
        0 <= c < 8,
        px == x + c,
        py == y + r,
        px >= SCREEN_SIZE_X || py >= SCREEN_SIZE_Y,
    ensures
        draw_upto(screen, x, y, data, r, c + 1) == draw_upto(screen, x, y, data, r, c),
        collision_upto(screen, x, y, data, r, c + 1) == collision_upto(screen, x, y, data, r, c),
{
    assert forall|j: int| 0 <= j < SCREEN_SIZE implies draw_hits_index(x, y, data, r, c + 1, j) == draw_hits_index(x, y, data, r, c, j) by {
        let jx = j % (SCREEN_SIZE_X as int);
        let jy = j / (SCREEN_SIZE_X as int);
        assert(0 <= jx < SCREEN_SIZE_X && 0 <= jy < SCREEN_SIZE_Y) by (nonlinear_arith)
            requires
                0 <= j < SCREEN_SIZE,
                jx == j % (SCREEN_SIZE_X as int),
                jy == j / (SCREEN_SIZE_X as int),
        ;
        assert(!(jx == px && jy == py));
    }
    assert(draw_upto(screen, x, y, data, r, c + 1) =~= draw_upto(screen, x, y, data, r, c));
    if collision_upto(screen, x, y, data, r, c) {
        assert(collision_upto(screen, x, y, data, r, c + 1));
    }
    if collision_upto(screen, x, y, data, r, c + 1) {
        let (row, col) = choose|row: int, col: int|
            {
                &&& 0 <= row
                &&& 0 <= col < 8
                &&& (row < r || (row == r && col < c + 1))
                &&& #[trigger] sprite_pixel_on(data, row, col)
                &&& x + col < SCREEN_SIZE_X
                &&& y + row < SCREEN_SIZE_Y
                &&& screen[x + col + (y + row) * SCREEN_SIZE_X] == 1
            };
        assert(!(row == r && col == c));
        assert(collision_upto(screen, x, y, data, r, c));
    }
}

/// Advancing one column over a set, in-bounds sprite bit flips exactly the
/// one pixel it lands on.
proof fn lemma_draw_step_in_bounds(screen: Seq<u8>, x: int, y: int, data: Seq<u8>, r: int, c: int)
    requires
        screen.len() == SCREEN_SIZE,
        0 <= x,
        0 <= y,
        0 <= r,
        0 <= c < 8,
        sprite_pixel_on(data, r, c),
        x + c < SCREEN_SIZE_X,
        y + r < SCREEN_SIZE_Y,
    ensures
        draw_upto(screen, x, y, data, r, c + 1) == draw_upto(screen, x, y, data, r, c).update(
            x + c + (y + r) * SCREEN_SIZE_X,
            pixel_flipped(screen[x + c + (y + r) * SCREEN_SIZE_X]),
        ),
{
    let j0 = x + c + (y + r) * (SCREEN_SIZE_X as int);
    lemma_pixel_index(x, y, c, r);
    assert forall|j: int| 0 <= j < SCREEN_SIZE && j != j0 implies draw_hits_index(x, y, data, r, c + 1, j) == draw_hits_index(x, y, data, r, c, j) by {
        let jx = j % (SCREEN_SIZE_X as int);
        let jy = j / (SCREEN_SIZE_X as int);
        assert(0 <= jx < SCREEN_SIZE_X && j == jx + jy * (SCREEN_SIZE_X as int)) by (
        nonlinear_arith)
            requires
                0 <= j,
                jx == j % (SCREEN_SIZE_X as int),
                jy == j / (SCREEN_SIZE_X as int),
        ;
        assert(!(jx == x + c && jy == y + r));
    }
    assert(draw_hits_index(x, y, data, r, c + 1, j0));
    assert(!draw_hits_index(x, y, data, r, c, j0));
    assert(draw_upto(screen, x, y, data, r, c + 1) =~= draw_upto(screen, x, y, data, r, c).update(
        j0,
        pixel_flipped(screen[j0]),
    ));
}

/// Advancing one column over a set, in-bounds sprite bit adds exactly that
/// pixel as a collision candidate.
proof fn lemma_collision_step(screen: Seq<u8>, x: int, y: int, data: Seq<u8>, r: int, c: int)
    requires
        screen.len() == SCREEN_SIZE,
        0 <= x,
        0 <= y,
        0 <= r,
        0 <= c < 8,
        sprite_pixel_on(data, r, c),
        x + c < SCREEN_SIZE_X,
        y + r < SCREEN_SIZE_Y,
    ensures
        collision_upto(screen, x, y, data, r, c + 1) == (collision_upto(screen, x, y, data, r, c)
            || screen[x + c + (y + r) * SCREEN_SIZE_X] == 1),
{
    if collision_upto(screen, x, y, data, r, c) {
        assert(collision_upto(screen, x, y, data, r, c + 1));
    }
    if screen[x + c + (y + r) * SCREEN_SIZE_X] == 1 {
        assert(collision_upto(screen, x, y, data, r, c + 1));
    }
    if collision_upto(screen, x, y, data, r, c + 1) {
        let (row, col) = choose|row: int, col: int|
            {
                &&& 0 <= row
                &&& 0 <= col < 8
                &&& (row < r || (row == r && col < c + 1))
                &&& #[trigger] sprite_pixel_on(data, row, col)
                &&& x + col < SCREEN_SIZE_X
                &&& y + row < SCREEN_SIZE_Y
                &&& screen[x + col + (y + row) * SCREEN_SIZE_X] == 1
            };
        if row == r && col == c {
            assert(screen[x + c + (y + r) * SCREEN_SIZE_X] == 1);
        } else {
            assert(collision_upto(screen, x, y, data, r, c));
        }
    }
}

/// Finishing the eight columns of one row is the same as starting the next
/// row with no columns drawn.
proof fn lemma_row_rollover(screen: Seq<u8>, x: int, y: int, data: Seq<u8>, r: int)
    requires
        screen.len() == SCREEN_SIZE,
        0 <= r,
    ensures
        draw_upto(screen, x, y, data, r, 8) == draw_upto(screen, x, y, data, r + 1, 0),
        collision_upto(screen, x, y, data, r, 8) == collision_upto(screen, x, y, data, r + 1, 0),
{
    assert forall|j: int| 0 <= j < SCREEN_SIZE implies draw_hits_index(x, y, data, r, 8, j) == draw_hits_index(x, y, data, r + 1, 0, j) by {
    }
    assert(draw_upto(screen, x, y, data, r, 8) =~= draw_upto(screen, x, y, data, r + 1, 0));
    if collision_upto(screen, x, y, data, r, 8) {
        let (row, col) = choose|row: int, col: int|
            {
                &&& 0 <= row
                &&& 0 <= col < 8
                &&& (row < r || (row == r && col < 8))
                &&& #[trigger] sprite_pixel_on(data, row, col)
                &&& x + col < SCREEN_SIZE_X
                &&& y + row < SCREEN_SIZE_Y
                &&& screen[x + col + (y + row) * SCREEN_SIZE_X] == 1
            };
        assert(row < r + 1);
        assert(collision_upto(screen, x, y, data, r + 1, 0));
    }
    if collision_upto(screen, x, y, data, r + 1, 0) {
        let (row, col) = choose|row: int, col: int|
            {
                &&& 0 <= row
                &&& 0 <= col < 8
                &&& (row < r + 1 || (row == r + 1 && col < 0))
                &&& #[trigger] sprite_pixel_on(data, row, col)
                &&& x + col < SCREEN_SIZE_X
                &&& y + row < SCREEN_SIZE_Y
                &&& screen[x + col + (y + row) * SCREEN_SIZE_X] == 1
            };
        assert(row < r || (row == r && col < 8));
        assert(collision_upto(screen, x, y, data, r, 8));
    }
}

} // verus!
