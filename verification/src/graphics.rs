//! The 64 x 32 monochrome frame buffer and CHIP-8 sprite drawing.
//!
//! Pixels are stored column by column: `mem[x][y]` is the pixel in column
//! `x` and row `y`, with 1 meaning lit and 0 dark. Sprites are drawn by
//! XOR-ing their set bits onto the screen, wrapping around both edges.

use vstd::prelude::*;

verus! {

/// Number of pixel rows.
pub const HEIGHT: usize = 32;

/// Number of pixel columns.
pub const WIDTH: usize = 64;

/// Side length, in window units, of the square that shows one pixel.
pub const BLOCK_SCALE: u32 = 15;

/// The window coordinate of the edge of block `c`: `c` blocks of
/// `BLOCK_SCALE` units, clamped to the range of `u32`.
pub open spec fn spec_to_coord_u32(c: int) -> int {
    if c <= 0 {
        0
    } else if c * BLOCK_SCALE > u32::MAX {
        u32::MAX as int
    } else {
        c * BLOCK_SCALE
    }
}

/// Converts a block index to a window coordinate, saturating at both ends
/// of the `u32` range.
pub fn to_coord_u32(c: i32) -> (r: u32)
    ensures
        r == spec_to_coord_u32(c as int),
{
    if c <= 0 {
        0
    } else {
        let scaled: i64 = (c as i64) * 15;
        if scaled > 0xFFFF_FFFF {
            0xFFFF_FFFF
        } else {
            scaled as u32
        }
    }
}

/// The abstract screen: `s[x][y]` is the stored value of pixel `(x, y)`.
pub type Screen = Seq<Seq<u8>>;

/// A screen of the right shape whose pixels are all 0 or 1.
pub open spec fn screen_wf(s: Screen) -> bool {
    &&& s.len() == WIDTH
    &&& forall|x: int| 0 <= x < WIDTH ==> (#[trigger] s[x]).len() == HEIGHT
    &&& forall|x: int, y: int| 0 <= x < WIDTH && 0 <= y < HEIGHT ==> #[trigger] s[x][y] <= 1
}

/// The screen with every pixel dark.
pub open spec fn blank_screen() -> Screen {
    Seq::new(WIDTH as nat, |x: int| Seq::new(HEIGHT as nat, |y: int| 0u8))
}

/// Whether pixel `(x, y)` is lit.
pub open spec fn lit(s: Screen, x: int, y: int) -> bool {
    s[x][y] == 1
}

/// The screen with pixel `(x, y)` set to `v`.
pub open spec fn with_pixel(s: Screen, x: int, y: int, v: u8) -> Screen {
    s.update(x, s[x].update(y, v))
}

/// The screen with pixel `(x, y)` toggled: a lit pixel goes dark, any
/// other goes lit.
pub open spec fn flip(s: Screen, x: int, y: int) -> Screen {
    with_pixel(s, x, y, if lit(s, x, y) { 0u8 } else { 1u8 })
}

/// Whether bit `i` of a sprite row is set, bit 0 being the leftmost
/// (most significant) one.
pub open spec fn row_bit(row: u8, i: int) -> bool {
    (row >> ((7 - i) as usize)) & 1u8 == 1u8
}

/// Screen and collision flag after the first `n` bits of row `j` of a
/// sprite drawn at `(x, y)` have been XOR-ed onto `s`, starting from the
/// flag `hit`. A set bit toggles its pixel, and a collision is recorded
/// when that pixel was lit just before.
pub open spec fn draw_bits(s: Screen, hit: bool, x: int, y: int, row: u8, j: int, n: int) -> (
    Screen,
    bool,
)
    decreases n,
{
    if n <= 0 {
        (s, hit)
    } else {
        let prev = draw_bits(s, hit, x, y, row, j, n - 1);
        let px = (x + n - 1) % (WIDTH as int);
        let py = (y + j) % (HEIGHT as int);
        if row_bit(row, n - 1) {
            (flip(prev.0, px, py), prev.1 || lit(prev.0, px, py))
        } else {
            prev
        }
    }
}

/// Screen and collision flag after the first `m` rows of `sprite` have
/// been drawn at `(x, y)`.
pub open spec fn draw_rows(s: Screen, x: int, y: int, sprite: Seq<u8>, m: int) -> (Screen, bool)
    decreases m,
{
    if m <= 0 {
        (s, false)
    } else {
        let prev = draw_rows(s, x, y, sprite, m - 1);
        draw_bits(prev.0, prev.1, x, y, sprite[m - 1], m - 1, 8)
    }
}

/// Screen and collision flag after the whole sprite is drawn at `(x, y)`.
pub open spec fn draw_sprite(s: Screen, x: int, y: int, sprite: Seq<u8>) -> (Screen, bool) {
    draw_rows(s, x, y, sprite, sprite.len() as int)
}

/// The screen whose pixel `(x, y)` is lit exactly when one of `a` and `b`
/// has it lit.
pub open spec fn xor_screen(a: Screen, b: Screen) -> Screen {
    Seq::new(
        WIDTH as nat,
        |x: int| Seq::new(HEIGHT as nat, |y: int| if lit(a, x, y) != lit(b, x, y) { 1u8 } else { 0u8 }),
    )
}

proof fn lemma_xor_blank(s: Screen)
    requires
        screen_wf(s),
    ensures
        xor_screen(s, blank_screen()) == s,
{
    assert forall|x: int| 0 <= x < WIDTH implies #[trigger] xor_screen(s, blank_screen())[x] =~= s[x] by {
        assert forall|y: int| 0 <= y < HEIGHT implies xor_screen(s, blank_screen())[x][y] == s[x][y] by {
            assert(s[x][y] <= 1);
        }
    }
    assert(xor_screen(s, blank_screen()) =~= s);
}

proof fn lemma_xor_self(s: Screen)
    ensures
        xor_screen(s, s) == blank_screen(),
{
    assert forall|x: int| 0 <= x < WIDTH implies #[trigger] xor_screen(s, s)[x] =~= blank_screen()[x] by {}
    assert(xor_screen(s, s) =~= blank_screen());
}

proof fn lemma_flip_xor(s: Screen, m: Screen, px: int, py: int)
    requires
        screen_wf(s),
        screen_wf(m),
        0 <= px < WIDTH,
        0 <= py < HEIGHT,
    ensures
        screen_wf(flip(m, px, py)),
        flip(xor_screen(s, m), px, py) == xor_screen(s, flip(m, px, py)),
{
    let f = flip(m, px, py);
    assert forall|x: int, y: int| 0 <= x < WIDTH && 0 <= y < HEIGHT implies #[trigger] f[x][y] <= 1 by {
        assert(m[x][y] <= 1);
    }
    let l = flip(xor_screen(s, m), px, py);
    let r = xor_screen(s, f);
    assert forall|x: int| 0 <= x < WIDTH implies #[trigger] l[x] =~= r[x] by {
        assert forall|y: int| 0 <= y < HEIGHT implies l[x][y] == r[x][y] by {
            assert(m[x][y] <= 1);
            assert(s[x][y] <= 1);
        }
    }
    assert(l =~= r);
}

proof fn lemma_draw_bits_xor(
    s: Screen,
    m: Screen,
    h1: bool,
    h2: bool,
    x: int,
    y: int,
    row: u8,
    j: int,
    n: int,
)
    requires
        screen_wf(s),
        screen_wf(m),
        0 <= x,
        0 <= y,
        0 <= j,
    ensures
        screen_wf(draw_bits(m, h2, x, y, row, j, n).0),
        draw_bits(xor_screen(s, m), h1, x, y, row, j, n).0 == xor_screen(
            s,
            draw_bits(m, h2, x, y, row, j, n).0,
        ),
    decreases n,
{
    if n > 0 {
        lemma_draw_bits_xor(s, m, h1, h2, x, y, row, j, n - 1);
        let pm = draw_bits(m, h2, x, y, row, j, n - 1).0;
        let px = (x + n - 1) % (WIDTH as int);
        let py = (y + j) % (HEIGHT as int);
        lemma_flip_xor(s, pm, px, py);
    }
}

proof fn lemma_draw_rows_xor(s: Screen, m: Screen, x: int, y: int, sprite: Seq<u8>, k: int)
    requires
        screen_wf(s),
        screen_wf(m),
        0 <= x,
        0 <= y,
    ensures
        screen_wf(draw_rows(m, x, y, sprite, k).0),
        draw_rows(xor_screen(s, m), x, y, sprite, k).0 == xor_screen(
            s,
            draw_rows(m, x, y, sprite, k).0,
        ),
    decreases k,
{
    if k > 0 {
        lemma_draw_rows_xor(s, m, x, y, sprite, k - 1);
        let pa = draw_rows(xor_screen(s, m), x, y, sprite, k - 1);
        let pm = draw_rows(m, x, y, sprite, k - 1);
        lemma_draw_bits_xor(s, pm.0, pa.1, pm.1, x, y, sprite[k - 1], k - 1, 8);
    }
}

/// Drawing keeps a well-formed screen well-formed.
pub proof fn lemma_draw_keeps_wf(s: Screen, x: int, y: int, sprite: Seq<u8>)
    requires
        screen_wf(s),
        0 <= x,
        0 <= y,
    ensures
        screen_wf(draw_sprite(s, x, y, sprite).0),
{
    lemma_draw_rows_xor(s, s, x, y, sprite, sprite.len() as int);
}

/// Drawing the same sprite twice at the same place restores the screen:
/// XOR drawing erases what it drew.
pub proof fn lemma_draw_twice_restores(s: Screen, x: int, y: int, sprite: Seq<u8>)
    requires
        screen_wf(s),
        0 <= x,
        0 <= y,
    ensures
        draw_sprite(draw_sprite(s, x, y, sprite).0, x, y, sprite).0 == s,
{
    let z = blank_screen();
    let k = sprite.len() as int;
    assert(screen_wf(z));
    let mask = draw_rows(z, x, y, sprite, k).0;
    // Drawing on s is XOR-ing the mask drawn on a blank screen.
    lemma_draw_rows_xor(s, z, x, y, sprite, k);
    lemma_xor_blank(s);
    assert(draw_rows(s, x, y, sprite, k).0 == xor_screen(s, mask));
    // Drawing on the mask itself gives a blank screen.
    lemma_draw_rows_xor(mask, z, x, y, sprite, k);
    lemma_xor_blank(mask);
    lemma_xor_self(mask);
    assert(draw_rows(mask, x, y, sprite, k).0 == z);
    // So drawing on s XOR mask gives s XOR blank, which is s.
    lemma_draw_rows_xor(s, mask, x, y, sprite, k);
}

/// Whether drawing `sprite` at `(x, y)` sets a bit over pixel `(px, py)`,
/// for a sprite of at most `HEIGHT` rows: the pixel lies `i` columns right
/// of and `j` rows below the corner, wrapping around, and bit `i` of row
/// `j` is set.
pub open spec fn sprite_covers(x: int, y: int, sprite: Seq<u8>, px: int, py: int) -> bool {
    let i = (px - x) % (WIDTH as int);
    let j = (py - y) % (HEIGHT as int);
    i < 8 && j < sprite.len() && row_bit(sprite[j], i)
}

/// Like `sprite_covers`, but for the rows before `m` and the first `n`
/// bits of row `m` only.
spec fn covered_before(x: int, y: int, sprite: Seq<u8>, m: int, n: int, px: int, py: int) -> bool {
    let i = (px - x) % (WIDTH as int);
    let j = (py - y) % (HEIGHT as int);
    &&& i < 8
    &&& j < sprite.len()
    &&& row_bit(sprite[j], i)
    &&& (j < m || (j == m && i < n))
}

/// Some pixel covered so far was lit on the original screen.
spec fn exposed_before(s: Screen, x: int, y: int, sprite: Seq<u8>, m: int, n: int) -> bool {
    exists|px: int, py: int|
        0 <= px < WIDTH && 0 <= py < HEIGHT && #[trigger] covered_before(x, y, sprite, m, n, px, py)
            && lit(s, px, py)
}

/// The state reached after `n` bits of row `m` is the original screen with
/// exactly the pixels covered so far toggled, and the collision flag says
/// whether one of them was lit.
spec fn drawn_so_far(s: Screen, t: Screen, h: bool, x: int, y: int, sprite: Seq<u8>, m: int, n: int) -> bool {
    &&& screen_wf(t)
    &&& forall|px: int, py: int|
        0 <= px < WIDTH && 0 <= py < HEIGHT ==> lit(t, px, py) == (lit(s, px, py)
            != covered_before(x, y, sprite, m, n, px, py))
    &&& h == exposed_before(s, x, y, sprite, m, n)
}

proof fn lemma_offset_x(x: int, n: int, p: int)
    requires
        x >= 0,
        0 <= n < 64,
        0 <= p < 64,
    ensures
        ((p - x) % 64 == n) <==> (p == (x + n) % 64),
{
}

proof fn lemma_offset_y(y: int, m: int, p: int)
    requires
        y >= 0,
        0 <= m < 32,
        0 <= p < 32,
    ensures
        ((p - y) % 32 == m) <==> (p == (y + m) % 32),
{
}

proof fn lemma_draw_bits_closed_form(s: Screen, x: int, y: int, sprite: Seq<u8>, m: int, n: int)
    requires
        screen_wf(s),
        x >= 0,
        y >= 0,
        sprite.len() <= HEIGHT,
        0 <= m < sprite.len(),
        0 <= n <= 8,
        drawn_so_far(s, draw_rows(s, x, y, sprite, m).0, draw_rows(s, x, y, sprite, m).1, x, y, sprite, m, 0),
    ensures
        ({
            let r = draw_rows(s, x, y, sprite, m);
            let d = draw_bits(r.0, r.1, x, y, sprite[m], m, n);
            drawn_so_far(s, d.0, d.1, x, y, sprite, m, n)
        }),
    decreases n,
{
    if n > 0 {
        lemma_draw_bits_closed_form(s, x, y, sprite, m, n - 1);
        let r = draw_rows(s, x, y, sprite, m);
        let prev = draw_bits(r.0, r.1, x, y, sprite[m], m, n - 1);
        let px0 = (x + n - 1) % 64;
        let py0 = (y + m) % 32;
        let row = sprite[m];
        lemma_offset_x(x, n - 1, px0);
        lemma_offset_y(y, m, py0);
        assert(!covered_before(x, y, sprite, m, n - 1, px0, py0));
        let d = draw_bits(r.0, r.1, x, y, row, m, n);
        if row_bit(row, n - 1) {
            assert(lit(prev.0, px0, py0) == lit(s, px0, py0));
            let t = flip(prev.0, px0, py0);
            assert(d.0 == t);
            assert forall|a: int, b: int| 0 <= a < WIDTH && 0 <= b < HEIGHT implies #[trigger] t[a][b] <= 1 by {
                assert(prev.0[a][b] <= 1);
            }
            assert forall|px: int, py: int| 0 <= px < WIDTH && 0 <= py < HEIGHT implies lit(t, px, py)
                == (lit(s, px, py) != covered_before(x, y, sprite, m, n, px, py)) by {
                lemma_offset_x(x, n - 1, px);
                lemma_offset_y(y, m, py);
                assert(lit(prev.0, px, py) == (lit(s, px, py) != covered_before(x, y, sprite, m, n - 1, px, py)));
            }
            if exposed_before(s, x, y, sprite, m, n) {
                let (a, b) = choose|a: int, b: int|
                    0 <= a < WIDTH && 0 <= b < HEIGHT && #[trigger] covered_before(x, y, sprite, m, n, a, b)
                        && lit(s, a, b);
                lemma_offset_x(x, n - 1, a);
                lemma_offset_y(y, m, b);
                if !(a == px0 && b == py0) {
                    assert(covered_before(x, y, sprite, m, n - 1, a, b));
                }
            }
            if exposed_before(s, x, y, sprite, m, n - 1) {
                let (a, b) = choose|a: int, b: int|
                    0 <= a < WIDTH && 0 <= b < HEIGHT && #[trigger] covered_before(x, y, sprite, m, n - 1, a, b)
                        && lit(s, a, b);
                assert(covered_before(x, y, sprite, m, n, a, b));
            }
            if lit(s, px0, py0) {
                assert(covered_before(x, y, sprite, m, n, px0, py0));
            }
        } else {
            assert forall|px: int, py: int| 0 <= px < WIDTH && 0 <= py < HEIGHT implies
                covered_before(x, y, sprite, m, n, px, py) == covered_before(x, y, sprite, m, n - 1, px, py) by {
                lemma_offset_x(x, n - 1, px);
                lemma_offset_y(y, m, py);
            }
            if exposed_before(s, x, y, sprite, m, n) {
                let (a, b) = choose|a: int, b: int|
                    0 <= a < WIDTH && 0 <= b < HEIGHT && #[trigger] covered_before(x, y, sprite, m, n, a, b)
                        && lit(s, a, b);
                assert(covered_before(x, y, sprite, m, n - 1, a, b));
            }
            if exposed_before(s, x, y, sprite, m, n - 1) {
                let (a, b) = choose|a: int, b: int|
                    0 <= a < WIDTH && 0 <= b < HEIGHT && #[trigger] covered_before(x, y, sprite, m, n - 1, a, b)
                        && lit(s, a, b);
                assert(covered_before(x, y, sprite, m, n, a, b));
            }
        }
    }
}

proof fn lemma_draw_rows_closed_form(s: Screen, x: int, y: int, sprite: Seq<u8>, m: int)
    requires
        screen_wf(s),
        x >= 0,
        y >= 0,
        sprite.len() <= HEIGHT,
        0 <= m <= sprite.len(),
    ensures
        drawn_so_far(s, draw_rows(s, x, y, sprite, m).0, draw_rows(s, x, y, sprite, m).1, x, y, sprite, m, 0),
    decreases m,
{
    if m == 0 {
        assert(!exposed_before(s, x, y, sprite, 0, 0));
    } else {
        lemma_draw_rows_closed_form(s, x, y, sprite, m - 1);
        lemma_draw_bits_closed_form(s, x, y, sprite, m - 1, 8);
        assert forall|px: int, py: int|
            covered_before(x, y, sprite, m - 1, 8, px, py) == covered_before(x, y, sprite, m, 0, px, py) by {}
        let r = draw_rows(s, x, y, sprite, m);
        if exposed_before(s, x, y, sprite, m, 0) {
            let (a, b) = choose|a: int, b: int|
                0 <= a < WIDTH && 0 <= b < HEIGHT && #[trigger] covered_before(x, y, sprite, m, 0, a, b)
                    && lit(s, a, b);
            assert(covered_before(x, y, sprite, m - 1, 8, a, b));
        }
        if exposed_before(s, x, y, sprite, m - 1, 8) {
            let (a, b) = choose|a: int, b: int|
                0 <= a < WIDTH && 0 <= b < HEIGHT && #[trigger] covered_before(x, y, sprite, m - 1, 8, a, b)
                    && lit(s, a, b);
            assert(covered_before(x, y, sprite, m, 0, a, b));
        }
    }
}

/// Drawing a sprite of at most `HEIGHT` rows toggles exactly the pixels
/// under its set bits, and reports a collision exactly when one of those
/// pixels was lit.
pub proof fn lemma_draw_closed_form(s: Screen, x: int, y: int, sprite: Seq<u8>)
    requires
        screen_wf(s),
        x >= 0,
        y >= 0,
        sprite.len() <= HEIGHT,
    ensures
        forall|px: int, py: int|
            0 <= px < WIDTH && 0 <= py < HEIGHT ==> lit(draw_sprite(s, x, y, sprite).0, px, py) == (
            lit(s, px, py) != sprite_covers(x, y, sprite, px, py)),
        draw_sprite(s, x, y, sprite).1 == exists|px: int, py: int|
            0 <= px < WIDTH && 0 <= py < HEIGHT && #[trigger] sprite_covers(x, y, sprite, px, py)
                && lit(s, px, py),
{
    let k = sprite.len() as int;
    lemma_draw_rows_closed_form(s, x, y, sprite, k);
    assert forall|px: int, py: int|
        covered_before(x, y, sprite, k, 0, px, py) == sprite_covers(x, y, sprite, px, py) by {}
    let d = draw_sprite(s, x, y, sprite);
    if d.1 {
        let (a, b) = choose|a: int, b: int|
            0 <= a < WIDTH && 0 <= b < HEIGHT && #[trigger] covered_before(x, y, sprite, k, 0, a, b)
                && lit(s, a, b);
        assert(sprite_covers(x, y, sprite, a, b));
    }
    if exists|px: int, py: int|
        0 <= px < WIDTH && 0 <= py < HEIGHT && #[trigger] sprite_covers(x, y, sprite, px, py)
            && lit(s, px, py) {
        let (a, b) = choose|a: int, b: int|
            0 <= a < WIDTH && 0 <= b < HEIGHT && #[trigger] sprite_covers(x, y, sprite, a, b)
                && lit(s, a, b);
        assert(covered_before(x, y, sprite, k, 0, a, b));
    }
}

/// Reducing the start coordinate first does not change a wrapped position.
proof fn lemma_wrap(a: int, b: int, m: int)
    requires
        0 <= a,
        0 <= b,
        0 < m,
    ensures
        (a % m + b % m) % m == (a + b) % m,
        0 <= a % m + b % m,
{
    vstd::arithmetic::div_mod::lemma_add_mod_noop(a, b, m);
}

/// The frame buffer.
pub struct Display {
    pub mem: [[u8; 32]; 64],
}

impl View for Display {
    type V = Screen;

    open spec fn view(&self) -> Screen {
        Seq::new(WIDTH as nat, |x: int| self.mem@[x]@)
    }
}

impl Display {
    /// A dark screen.
    pub fn new() -> (d: Display)
        ensures
            d@ == blank_screen(),
    {
        let d = Display { mem: [[0; 32]; 64] };
        assert(d@ =~= blank_screen()) by {
            assert forall|x: int| 0 <= x < WIDTH implies d@[x] =~= blank_screen()[x] by {}
        }
        d
    }

    /// Stores `state` (1 for lit, 0 for dark) at pixel `(x, y)`.
    pub fn set_pixel(&mut self, x: usize, y: usize, state: bool)
        requires
            x < WIDTH,
            y < HEIGHT,
        ensures
            final(self)@ == with_pixel(old(self)@, x as int, y as int, if state { 1u8 } else { 0u8 }),
    {
        let mut column = self.mem[x];
        column[y] = state as u8;
        self.mem[x] = column;
        assert(self@ =~= with_pixel(old(self)@, x as int, y as int, if state { 1u8 } else { 0u8 }));
    }

    /// Whether pixel `(x, y)` is lit.
    pub fn get_pixel(&self, x: usize, y: usize) -> (r: bool)
        requires
            x < WIDTH,
            y < HEIGHT,
        ensures
            r == lit(self@, x as int, y as int),
    {
        self.mem[x][y] == 0x01
    }

    /// Turns every pixel dark.
    pub fn cls(&mut self)
        ensures
            final(self)@ == blank_screen(),
    {
        for x in 0..WIDTH
            invariant
                forall|a: int, b: int|
                    0 <= a < x && 0 <= b < HEIGHT ==> #[trigger] self@[a][b] == 0u8,
        {
            for y in 0..HEIGHT
                invariant
                    0 <= x < WIDTH,
                    forall|a: int, b: int|
                        0 <= a < x && 0 <= b < HEIGHT ==> #[trigger] self@[a][b] == 0u8,
                    forall|b: int| 0 <= b < y ==> #[trigger] self@[x as int][b] == 0u8,
            {
                self.set_pixel(x, y, false);
            }
        }
        assert(self@ =~= blank_screen()) by {
            assert forall|a: int| 0 <= a < WIDTH implies #[trigger] self@[a] =~= blank_screen()[a] by {}
        }
    }

    /// XOR-draws `sprite` with its top-left corner at `(x, y)`: each row is
    /// one byte, most significant bit leftmost, and both coordinates wrap
    /// around the screen edges. Returns whether a lit pixel was toggled.
    pub fn update_screen(&mut self, x: usize, y: usize, sprite: &[u8]) -> (collision: bool)
        ensures
            (final(self)@, collision) == draw_sprite(old(self)@, x as int, y as int, sprite@),
    {
        let rows = sprite.len();
        let mut collision = false;
        let xm = x % WIDTH;
        let ym = y % HEIGHT;
        for j in 0..rows
            invariant
                rows == sprite@.len(),
                xm == x % WIDTH,
                ym == y % HEIGHT,
                (self@, collision) == draw_rows(old(self)@, x as int, y as int, sprite@, j as int),
        {
            let row = sprite[j];
            let ghost start = (self@, collision);
            let yj = (ym + j % HEIGHT) % HEIGHT;
            proof {
                lemma_wrap(y as int, j as int, HEIGHT as int);
            }
            for i in 0..8usize
                invariant
                    rows == sprite@.len(),
                    j < rows,
                    row == sprite@[j as int],
                    xm == x % WIDTH,
                    yj == (y + j) % (HEIGHT as int),
                    (self@, collision) == draw_bits(
                        start.0,
                        start.1,
                        x as int,
                        y as int,
                        row,
                        j as int,
                        i as int,
                    ),
            {
                let new_val = row >> (7 - i) & 0x01;
                if new_val == 0x01 {
                    let xi = (xm + i) % WIDTH;
                    proof {
                        lemma_wrap(x as int, i as int, WIDTH as int);
                    }
                    let old_val = self.get_pixel(xi, yj);
                    if old_val {
                        collision = true;
                    }
                    self.set_pixel(xi, yj, (new_val == 1) ^ old_val);
                }
            }
        }
        collision
    }
}

} // verus!
