//! The 64×32 monochrome frame buffer and its XOR sprite blit.

use vstd::prelude::*;

verus! {

/// Number of pixel columns.
pub const WIDTH: usize = 64;

/// Number of pixel rows.
pub const HEIGHT: usize = 32;

/// Sprite origins wrap modulo this value horizontally (one less than the width).
pub const WRAP_X: u8 = 63;

/// Sprite origins wrap modulo this value vertically (one less than the height).
pub const WRAP_Y: u8 = 31;

/// A pixel matrix in column-major order: `g[x][y]` is column `x`, row `y`.
/// Frame buffers and sprites are both described this way.
pub type Grid = Seq<Seq<u8>>;

/// `g` has the shape of a frame buffer: 64 columns of 32 rows.
pub open spec fn is_grid(g: Grid) -> bool {
    &&& g.len() == 64
    &&& forall|x: int| 0 <= x < 64 ==> (#[trigger] g[x]).len() == 32
}

/// Every pixel of the frame buffer `g` is 0 or 1.
pub open spec fn is_monochrome(g: Grid) -> bool {
    forall|x: int, y: int| 0 <= x < 64 && 0 <= y < 32 ==> #[trigger] g[x][y] <= 1
}

/// The frame buffer with every pixel off.
pub open spec fn blank() -> Grid {
    Seq::new(64, |x: int| Seq::new(32, |y: int| 0u8))
}

/// No column of the sprite is shorter than the first one, whose length is the
/// number of rows that are drawn.
pub open spec fn has_full_columns(sprite: Grid) -> bool {
    forall|x: int| 0 <= x < sprite.len() ==> (#[trigger] sprite[x]).len() >= sprite[0].len()
}

/// Every pixel of the sprite is 0 or 1.
pub open spec fn is_bitmap(sprite: Grid) -> bool {
    forall|x: int, y: int|
        0 <= x < sprite.len() && 0 <= y < sprite[x].len() ==> #[trigger] sprite[x][y] <= 1
}

/// Number of rows of a sprite (0 for a sprite without columns).
pub open spec fn sprite_rows(sprite: Grid) -> int {
    if sprite.len() == 0 {
        0
    } else {
        sprite[0].len() as int
    }
}

/// Column in which the leftmost sprite column is placed.
pub open spec fn origin_x(start_x: u8) -> int {
    start_x as int % 63
}

/// Row in which the topmost sprite row is placed.
pub open spec fn origin_y(start_y: u8) -> int {
    start_y as int % 31
}

/// The sprite placed at `(start_x, start_y)` has a pixel for position `(x, y)`.
/// Positions outside the frame buffer are never asked for: such pixels are clipped.
pub open spec fn covers(sprite: Grid, start_x: u8, start_y: u8, x: int, y: int) -> bool {
    &&& origin_x(start_x) <= x < origin_x(start_x) + sprite.len()
    &&& origin_y(start_y) <= y < origin_y(start_y) + sprite_rows(sprite)
}

/// The sprite pixel that lands on position `(x, y)`.
pub open spec fn sprite_pixel(sprite: Grid, start_x: u8, start_y: u8, x: int, y: int) -> u8
    recommends
        covers(sprite, start_x, start_y, x, y),
{
    sprite[x - origin_x(start_x)][y - origin_y(start_y)]
}

/// Position `(x, y)` of the frame buffer is lit and a lit sprite pixel lands on it.
pub open spec fn hits(g: Grid, sprite: Grid, start_x: u8, start_y: u8, x: int, y: int) -> bool {
    &&& 0 <= x < 64
    &&& 0 <= y < 32
    &&& covers(sprite, start_x, start_y, x, y)
    &&& g[x][y] == 1
    &&& sprite_pixel(sprite, start_x, start_y, x, y) == 1
}

/// Drawing the sprite on `g` turns some lit pixel off.
pub open spec fn collides(g: Grid, sprite: Grid, start_x: u8, start_y: u8) -> bool {
    exists|x: int, y: int| hits(g, sprite, start_x, start_y, x, y)
}

/// Pixel `(x, y)` after the sprite has been XORed onto `g`.
pub open spec fn drawn_pixel(g: Grid, sprite: Grid, start_x: u8, start_y: u8, x: int, y: int) -> u8 {
    if covers(sprite, start_x, start_y, x, y) {
        g[x][y] ^ sprite_pixel(sprite, start_x, start_y, x, y)
    } else {
        g[x][y]
    }
}

/// The frame buffer after the sprite has been XORed onto `g`.
pub open spec fn drawn(g: Grid, sprite: Grid, start_x: u8, start_y: u8) -> Grid {
    Seq::new(64, |x: int| Seq::new(32, |y: int| drawn_pixel(g, sprite, start_x, start_y, x, y)))
}

/// The sprite pixel for `(x, y)` has been applied once `rows_done` full sprite
/// rows and the first `cols_done` pixels of the next row have been drawn.
spec fn reached(
    sprite: Grid,
    start_x: u8,
    start_y: u8,
    rows_done: int,
    cols_done: int,
    x: int,
    y: int,
) -> bool {
    &&& covers(sprite, start_x, start_y, x, y)
    &&& (y - origin_y(start_y) < rows_done || (y - origin_y(start_y) == rows_done && x - origin_x(
        start_x,
    ) < cols_done))
}

/// The lit pixels of `g` in painting order: rows from top to bottom, each from
/// left to right, among the first `n` positions. A lit pixel in column `x`,
/// row `y` is reported as the point `(x, 31 - y)`, with the vertical axis
/// pointing up.
pub open spec fn lit_points(g: Grid, n: nat) -> Seq<(u8, u8)>
    decreases n,
{
    if n == 0 {
        Seq::empty()
    } else {
        let k = (n - 1) as int;
        let rest = lit_points(g, (n - 1) as nat);
        if g[k % 64][k / 64] == 1 {
            rest.push(((k % 64) as u8, (31 - k / 64) as u8))
        } else {
            rest
        }
    }
}

/// The monochrome frame buffer. `grid[x][y]` is the pixel in column `x`, row `y`.
#[derive(Debug, PartialEq, Eq)]
pub struct Display {
    pub grid: [[u8; 32]; 64],
}

impl View for Display {
    type V = Grid;

    open spec fn view(&self) -> Grid {
        Seq::new(64, |x: int| self.grid[x]@)
    }
}

impl Clone for Display {
    fn clone(&self) -> (copy: Self)
        ensures
            copy == *self,
    {
        Display { grid: self.grid }
    }
}

impl Display {
    /// The frame buffer and the collision flag are as they should be once
    /// `rows_done` full rows of the sprite and the first `cols_done` pixels of
    /// the next row have been drawn on `g`.
    spec fn drawn_up_to(
        &self,
        g: Grid,
        sprite: Grid,
        start_x: u8,
        start_y: u8,
        rows_done: int,
        cols_done: int,
        collision: bool,
    ) -> bool {
        &&& forall|a: int, b: int|
            0 <= a < 64 && 0 <= b < 32 ==> #[trigger] self.grid[a][b] == (if reached(
                sprite,
                start_x,
                start_y,
                rows_done,
                cols_done,
                a,
                b,
            ) {
                drawn_pixel(g, sprite, start_x, start_y, a, b)
            } else {
                g[a][b]
            })
        &&& collision ==> collides(g, sprite, start_x, start_y)
        &&& !collision ==> forall|a: int, b: int|
            reached(sprite, start_x, start_y, rows_done, cols_done, a, b) ==> !#[trigger] hits(
                g,
                sprite,
                start_x,
                start_y,
                a,
                b,
            )
    }

    /// A frame buffer with every pixel off.
    pub fn new() -> (display: Self)
        ensures
            display@ == blank(),
    {
        let display = Display { grid: [[0u8; 32]; 64] };
        assert(display@ =~~= blank());
        display
    }

    /// Turns every pixel off.
    pub fn cls(&mut self)
        ensures
            final(self)@ == blank(),
    {
        self.grid = [[0u8; 32]; 64];
        assert(self@ =~~= blank());
    }

    /// XORs a sprite onto the frame buffer and reports whether a lit pixel was
    /// turned off. `sprite[x][y]` is the sprite pixel in column `x`, row `y`;
    /// the first column says how many rows there are. The origin wraps modulo
    /// 63 and 31; sprite pixels that fall outside the frame buffer are skipped.
    pub fn draw_sprite(
        &mut self,
        sprite_start_x: u8,
        sprite_start_y: u8,
        sprite: Vec<Vec<u8>>,
    ) -> (collision: bool)
        requires
            has_full_columns(sprite.deep_view()),
        ensures
            final(self)@ == drawn(old(self)@, sprite.deep_view(), sprite_start_x, sprite_start_y),
            collision == collides(old(self)@, sprite.deep_view(), sprite_start_x, sprite_start_y),
            is_monochrome(old(self)@) && is_bitmap(sprite.deep_view()) ==> is_monochrome(
                final(self)@,
            ),
    {
        let ghost s = sprite.deep_view();
        let ghost g = self@;
        let left: usize = (sprite_start_x % WRAP_X) as usize;
        let top: usize = (sprite_start_y % WRAP_Y) as usize;
        let columns: usize = sprite.len();
        let rows: usize = if columns == 0 {
            0
        } else {
            sprite[0].len()
        };
        let x_end: usize = if columns < WIDTH - left {
            columns
        } else {
            WIDTH - left
        };
        let y_end: usize = if rows < HEIGHT - top {
            rows
        } else {
            HEIGHT - top
        };
        proof {
            assert forall|x: int| 0 <= x < columns implies (#[trigger] sprite@[x])@ == s[x] by {
                assert(sprite@[x].deep_view() =~= sprite@[x]@);
            }
        }
        let mut collision = false;
        let mut y: usize = 0;
        while y < y_end
            invariant
                y <= y_end,
                left == origin_x(sprite_start_x),
                top == origin_y(sprite_start_y),
                columns == s.len(),
                rows == sprite_rows(s),
                x_end <= columns,
                x_end + left <= 64,
                x_end == columns || x_end + left == 64,
                y_end <= rows,
                y_end + top <= 32,
                has_full_columns(s),
                s == sprite.deep_view(),
                forall|x: int| 0 <= x < columns ==> (#[trigger] sprite@[x])@ == s[x],
                self.drawn_up_to(g, s, sprite_start_x, sprite_start_y, y as int, 0, collision),
            decreases y_end - y,
        {
            let mut x: usize = 0;
            while x < x_end
                invariant
                    x <= x_end,
                    y < y_end,
                    left == origin_x(sprite_start_x),
                    top == origin_y(sprite_start_y),
                    columns == s.len(),
                    rows == sprite_rows(s),
                    x_end <= columns,
                    x_end + left <= 64,
                    y_end <= rows,
                    y_end + top <= 32,
                    has_full_columns(s),
                    s == sprite.deep_view(),
                    forall|x: int| 0 <= x < columns ==> (#[trigger] sprite@[x])@ == s[x],
                    self.drawn_up_to(
                        g,
                        s,
                        sprite_start_x,
                        sprite_start_y,
                        y as int,
                        x as int,
                        collision,
                    ),
                decreases x_end - x,
            {
                let x_coord: usize = left + x;
                let y_coord: usize = top + y;
                assert(sprite@[x as int]@ == s[x as int]);
                assert(s[x as int].len() >= s[0].len());
                let bit: u8 = sprite[x][y];
                let pixel: u8 = self.grid[x_coord][y_coord];
                assert(pixel == g[x_coord as int][y_coord as int]);
                assert(bit == sprite_pixel(
                    s,
                    sprite_start_x,
                    sprite_start_y,
                    x_coord as int,
                    y_coord as int,
                ));
                if pixel == 1 && bit == 1 {
                    collision = true;
                    assert(hits(
                        g,
                        s,
                        sprite_start_x,
                        sprite_start_y,
                        x_coord as int,
                        y_coord as int,
                    ));
                }
                self.grid[x_coord][y_coord] = pixel ^ bit;
                x += 1;
            }
            y += 1;
        }
        proof {
            assert forall|a: int, b: int| 0 <= a < 64 && 0 <= b < 32 implies self.grid[a][b]
                == drawn_pixel(g, s, sprite_start_x, sprite_start_y, a, b) by {}
            assert(self@ =~~= drawn(g, s, sprite_start_x, sprite_start_y));
            if is_monochrome(g) && is_bitmap(s) {
                lemma_draw_keeps_monochrome(g, s, sprite_start_x, sprite_start_y);
            }
        }
        collision
    }

    /// The lit pixels as points for a painter whose vertical axis points up:
    /// a pixel in column `x`, row `y` that holds 1 yields `(x, 31 - y)`. Rows are
    /// visited from top to bottom, each from left to right.
    pub fn lit_pixels(&self) -> (points: Vec<(u8, u8)>)
        ensures
            points@ == lit_points(self@, 2048),
    {
        let mut points: Vec<(u8, u8)> = Vec::new();
        let mut y: usize = 0;
        while y < HEIGHT
            invariant
                y <= 32,
                points@ == lit_points(self@, (y * 64) as nat),
            decreases 32 - y,
        {
            let mut x: usize = 0;
            while x < WIDTH
                invariant
                    x <= 64,
                    y < 32,
                    points@ == lit_points(self@, (y * 64 + x) as nat),
                decreases 64 - x,
            {
                let ghost k = (y * 64 + x) as int;
                assert(k % 64 == x && k / 64 == y);
                assert(self@[x as int][y as int] == self.grid[x as int][y as int]);
                if self.grid[x][y] == 1 {
                    points.push((x as u8, (31 - y) as u8));
                }
                x += 1;
            }
            y += 1;
        }
        points
    }
}

/// XOR is its own inverse: drawing the same sprite twice at the same origin
/// gives back the frame buffer that was there before the first draw.
pub proof fn lemma_draw_twice_restores(g: Grid, sprite: Grid, start_x: u8, start_y: u8)
    requires
        is_grid(g),
    ensures
        drawn(drawn(g, sprite, start_x, start_y), sprite, start_x, start_y) == g,
{
    let once = drawn(g, sprite, start_x, start_y);
    let twice = drawn(once, sprite, start_x, start_y);
    assert forall|x: int, y: int| 0 <= x < 64 && 0 <= y < 32 implies twice[x][y] == g[x][y] by {
        if covers(sprite, start_x, start_y, x, y) {
            let a = g[x][y];
            let b = sprite_pixel(sprite, start_x, start_y, x, y);
            assert((a ^ b) ^ b == a) by (bit_vector);
        }
    }
    assert(twice =~~= g);
}

/// Drawing on a blank frame buffer never collides, whatever the sprite.
pub proof fn lemma_draw_on_blank_has_no_collision(sprite: Grid, start_x: u8, start_y: u8)
    ensures
        !collides(blank(), sprite, start_x, start_y),
{
}

/// After a sprite has been drawn on a blank frame buffer, drawing it again at
/// the same origin collides, provided one lit sprite pixel lands at some
/// position `(x, y)` of the frame buffer.
pub proof fn lemma_redraw_collides(sprite: Grid, start_x: u8, start_y: u8, x: int, y: int)
    requires
        0 <= x < 64,
        0 <= y < 32,
        covers(sprite, start_x, start_y, x, y),
        sprite_pixel(sprite, start_x, start_y, x, y) == 1,
    ensures
        collides(drawn(blank(), sprite, start_x, start_y), sprite, start_x, start_y),
{
    let once = drawn(blank(), sprite, start_x, start_y);
    assert(0u8 ^ 1u8 == 1u8) by (bit_vector);
    assert(once[x][y] == 1);
    assert(hits(once, sprite, start_x, start_y, x, y));
}

/// Drawing a sprite of 0/1 pixels keeps every pixel of the frame buffer 0 or 1.
pub proof fn lemma_draw_keeps_monochrome(g: Grid, sprite: Grid, start_x: u8, start_y: u8)
    requires
        is_grid(g),
        is_monochrome(g),
        has_full_columns(sprite),
        is_bitmap(sprite),
    ensures
        is_monochrome(drawn(g, sprite, start_x, start_y)),
{
    let after = drawn(g, sprite, start_x, start_y);
    assert forall|x: int, y: int| 0 <= x < 64 && 0 <= y < 32 implies #[trigger] after[x][y] <= 1 by {
        if covers(sprite, start_x, start_y, x, y) {
            let a = g[x][y];
            let b = sprite_pixel(sprite, start_x, start_y, x, y);
            assert(sprite[x - origin_x(start_x)].len() >= sprite[0].len());
            assert(b <= 1);
            assert(a <= 1 && b <= 1 ==> a ^ b <= 1) by (bit_vector);
        }
    }
}

} // verus!
