//! The display: a grid of 64 by 32 pixels, each lit or dark, onto which
//! sprites are drawn by exclusive or.

use vstd::prelude::*;

verus! {

/// The number of pixels in a row of the display.
pub const WIDTH: usize = 64;

/// The number of rows of the display.
pub const HEIGHT: usize = 32;

/// The side, in window units, of the square that shows one pixel.
pub const PIXEL_SIZE: u32 = 20;

/// A position in the window: how far right, then how far down.
#[derive(Clone, Copy, Debug, PartialEq, Eq, Structural)]
pub struct Point(pub i32, pub i32);

/// The pixel grid, addressed `pixels[row][column]`.
///
/// Its view is the grid as a sequence of `HEIGHT` rows, each a sequence of
/// `WIDTH` pixels.
pub struct Display {
    /// The pixels, `true` where one is lit.
    pub pixels: [[bool; 64]; 32],
}

impl View for Display {
    type V = Seq<Seq<bool>>;

    open spec fn view(&self) -> Seq<Seq<bool>> {
        Seq::new(HEIGHT as nat, |r: int| self.pixels[r]@)
    }
}

/// Whether `(r, c)` is a position on the grid.
pub open spec fn on_grid(r: int, c: int) -> bool {
    0 <= r < HEIGHT && 0 <= c < WIDTH
}

/// Whether `px` has the shape of the grid.
pub open spec fn is_screen(px: Seq<Seq<bool>>) -> bool {
    px.len() == HEIGHT && forall|r: int| 0 <= r < HEIGHT ==> (#[trigger] px[r]).len() == WIDTH
}

/// The grid with every pixel dark.
pub open spec fn blank() -> Seq<Seq<bool>> {
    Seq::new(HEIGHT as nat, |r: int| Seq::new(WIDTH as nat, |c: int| false))
}

/// Whether bit `j` of `byte` is set, counting from the most significant.
pub open spec fn bit_of(byte: u8, j: int) -> bool {
    (byte >> ((7 - j) as u8)) & 1 == 1
}

/// Whether the sprite, with its top left corner at row `row0` and column
/// `col0`, has a set bit at grid position `(r, c)`. A sprite is one byte per
/// row, eight pixels wide.
pub open spec fn sprite_pixel(sprite: Seq<u8>, row0: int, col0: int, r: int, c: int) -> bool {
    &&& 0 <= r - row0 < sprite.len()
    &&& 0 <= c - col0 < 8
    &&& bit_of(sprite[r - row0], c - col0)
}

/// The grid `px` after the sprite was drawn at `(row0, col0)`: each pixel
/// under a set bit of the sprite is flipped, every other pixel is kept.
/// What of the sprite lies off the grid is cut off.
pub open spec fn blit(px: Seq<Seq<bool>>, sprite: Seq<u8>, row0: int, col0: int) -> Seq<Seq<bool>> {
    Seq::new(
        HEIGHT as nat,
        |r: int|
            Seq::new(WIDTH as nat, |c: int| px[r][c] != sprite_pixel(sprite, row0, col0, r, c)),
    )
}

/// Whether drawing the sprite at `(row0, col0)` onto `px` darkens a pixel
/// that was lit.
pub open spec fn collides(px: Seq<Seq<bool>>, sprite: Seq<u8>, row0: int, col0: int) -> bool {
    exists|r: int, c: int| #[trigger]
        on_grid(r, c) && px[r][c] && sprite_pixel(sprite, row0, col0, r, c)
}

/// Whether the pixel at `(r, c)` comes before bit `j` of sprite row `i` in
/// the order in which a sprite at `(row0, col0)` is drawn.
spec fn drawn_before(row0: int, col0: int, i: int, j: int, r: int, c: int) -> bool {
    r - row0 < i || (r - row0 == i && c - col0 < j)
}

/// Whether the sprite has a set bit at `(r, c)` that is drawn before bit
/// `j` of its row `i`.
spec fn drawn_pixel(sprite: Seq<u8>, row0: int, col0: int, i: int, j: int, r: int, c: int) -> bool {
    sprite_pixel(sprite, row0, col0, r, c) && drawn_before(row0, col0, i, j, r, c)
}

/// Whether the grid `now` and the flag `hit` are what drawing the sprite
/// up to, and without, bit `j` of its row `i` makes of the grid `px`.
spec fn drawn_up_to(
    px: Seq<Seq<bool>>,
    sprite: Seq<u8>,
    row0: int,
    col0: int,
    i: int,
    j: int,
    now: Seq<Seq<bool>>,
    hit: bool,
) -> bool {
    &&& forall|r: int, c: int| #[trigger]
        on_grid(r, c) ==> now[r][c] == (px[r][c] != drawn_pixel(sprite, row0, col0, i, j, r, c))
    &&& hit == exists|r: int, c: int| #[trigger]
        on_grid(r, c) && px[r][c] && drawn_pixel(sprite, row0, col0, i, j, r, c)
}

/// Drawing bit `j` of row `i`: where the bit is set and on the grid, the
/// pixel under it is flipped, and the flag is raised if it was lit.
proof fn lemma_bit_drawn(
    px: Seq<Seq<bool>>,
    sprite: Seq<u8>,
    row0: int,
    col0: int,
    i: int,
    j: int,
    before: Seq<Seq<bool>>,
    hit_before: bool,
    after: Seq<Seq<bool>>,
    hit: bool,
)
    requires
        drawn_up_to(px, sprite, row0, col0, i, j, before, hit_before),
        0 <= i < sprite.len(),
        0 <= j < 8,
        0 <= row0 + i < HEIGHT,
        0 <= col0,
        ({
            let flips = col0 + j < WIDTH && bit_of(sprite[i], j);
            &&& forall|r: int, c: int| #[trigger]
                on_grid(r, c) ==> after[r][c] == (before[r][c] != (flips && r == row0 + i && c
                    == col0 + j))
            &&& hit == (hit_before || (flips && before[row0 + i][col0 + j]))
        }),
    ensures
        drawn_up_to(px, sprite, row0, col0, i, j + 1, after, hit),
{
    let y = row0 + i;
    let x = col0 + j;
    let flips = x < WIDTH && bit_of(sprite[i], j);
    assert forall|r: int, c: int| #[trigger] on_grid(r, c) implies after[r][c] == (px[r][c]
        != drawn_pixel(sprite, row0, col0, i, j + 1, r, c)) by {
        assert(before[r][c] == (px[r][c] != drawn_pixel(sprite, row0, col0, i, j, r, c)));
    }
    if hit_before {
        let (r, c) = choose|r: int, c: int| #[trigger]
            on_grid(r, c) && px[r][c] && drawn_pixel(sprite, row0, col0, i, j, r, c);
        assert(on_grid(r, c) && drawn_pixel(sprite, row0, col0, i, j + 1, r, c));
    } else if flips {
        assert(on_grid(y, x));
        assert(before[y][x] == (px[y][x] != drawn_pixel(sprite, row0, col0, i, j, y, x)));
        assert(drawn_pixel(sprite, row0, col0, i, j + 1, y, x));
    }
    if !hit {
        assert forall|r: int, c: int| #[trigger] on_grid(r, c) && px[r][c] implies !drawn_pixel(
            sprite,
            row0,
            col0,
            i,
            j + 1,
            r,
            c,
        ) by {
            assert(before[r][c] == (px[r][c] != drawn_pixel(sprite, row0, col0, i, j, r, c)));
            assert(!drawn_pixel(sprite, row0, col0, i, j, r, c));
        }
    }
}

/// A row that is drawn to its eighth bit is drawn: the next row is due.
proof fn lemma_row_drawn(
    px: Seq<Seq<bool>>,
    sprite: Seq<u8>,
    row0: int,
    col0: int,
    i: int,
    now: Seq<Seq<bool>>,
    hit: bool,
)
    requires
        drawn_up_to(px, sprite, row0, col0, i, 8, now, hit),
    ensures
        drawn_up_to(px, sprite, row0, col0, i + 1, 0, now, hit),
{
    assert forall|r: int, c: int|
        drawn_pixel(sprite, row0, col0, i, 8, r, c) == drawn_pixel(
            sprite,
            row0,
            col0,
            i + 1,
            0,
            r,
            c,
        ) by {}
    assert forall|r: int, c: int| #[trigger] on_grid(r, c) implies now[r][c] == (px[r][c]
        != drawn_pixel(sprite, row0, col0, i + 1, 0, r, c)) by {
        assert(now[r][c] == (px[r][c] != drawn_pixel(sprite, row0, col0, i, 8, r, c)));
    }
    if hit {
        let (r, c) = choose|r: int, c: int| #[trigger]
            on_grid(r, c) && px[r][c] && drawn_pixel(sprite, row0, col0, i, 8, r, c);
        assert(on_grid(r, c) && drawn_pixel(sprite, row0, col0, i + 1, 0, r, c));
    }
}

/// Once every row of the sprite that lies on the grid is drawn, the sprite
/// is drawn.
proof fn lemma_all_drawn(
    px: Seq<Seq<bool>>,
    sprite: Seq<u8>,
    row0: int,
    col0: int,
    i: int,
    now: Seq<Seq<bool>>,
    hit: bool,
)
    requires
        drawn_up_to(px, sprite, row0, col0, i, 0, now, hit),
        is_screen(now),
        i >= sprite.len() || row0 + i >= HEIGHT,
    ensures
        now == blit(px, sprite, row0, col0),
        hit == collides(px, sprite, row0, col0),
{
    assert forall|r: int, c: int| #[trigger] on_grid(r, c) implies drawn_pixel(
        sprite,
        row0,
        col0,
        i,
        0,
        r,
        c,
    ) == sprite_pixel(sprite, row0, col0, r, c) by {}
    assert forall|r: int| 0 <= r < HEIGHT implies #[trigger] now[r] =~= blit(
        px,
        sprite,
        row0,
        col0,
    )[r] by {
        assert forall|c: int| 0 <= c < WIDTH implies now[r][c] == blit(px, sprite, row0, col0)[r][c] by {
            assert(on_grid(r, c));
        }
    }
    assert(now =~= blit(px, sprite, row0, col0));
    if hit {
        let (r, c) = choose|r: int, c: int| #[trigger]
            on_grid(r, c) && px[r][c] && drawn_pixel(sprite, row0, col0, i, 0, r, c);
        assert(on_grid(r, c) && px[r][c] && sprite_pixel(sprite, row0, col0, r, c));
    }
    if collides(px, sprite, row0, col0) {
        let (r, c) = choose|r: int, c: int| #[trigger]
            on_grid(r, c) && px[r][c] && sprite_pixel(sprite, row0, col0, r, c);
        assert(on_grid(r, c) && px[r][c] && drawn_pixel(sprite, row0, col0, i, 0, r, c));
    }
}

/// Whether drawing the sprite at `(row0, col0)` onto `px` lights a pixel
/// that was dark.
pub open spec fn lights(px: Seq<Seq<bool>>, sprite: Seq<u8>, row0: int, col0: int) -> bool {
    exists|r: int, c: int| #[trigger]
        on_grid(r, c) && !px[r][c] && sprite_pixel(sprite, row0, col0, r, c)
}

/// Drawing a sprite twice at one position gives back the grid as it was.
/// The second drawing darkens a pixel exactly if the first one lit one.
pub proof fn lemma_blit_twice(px: Seq<Seq<bool>>, sprite: Seq<u8>, row0: int, col0: int)
    requires
        is_screen(px),
    ensures
        blit(blit(px, sprite, row0, col0), sprite, row0, col0) == px,
        collides(blit(px, sprite, row0, col0), sprite, row0, col0) == lights(
            px,
            sprite,
            row0,
            col0,
        ),
{
    let once = blit(px, sprite, row0, col0);
    let twice = blit(once, sprite, row0, col0);
    assert forall|r: int| 0 <= r < HEIGHT implies #[trigger] twice[r] =~= px[r] by {
        assert(px[r].len() == WIDTH);
    }
    assert(twice =~= px);
    if collides(once, sprite, row0, col0) {
        let (r, c) = choose|r: int, c: int| #[trigger]
            on_grid(r, c) && once[r][c] && sprite_pixel(sprite, row0, col0, r, c);
        assert(on_grid(r, c) && !px[r][c] && sprite_pixel(sprite, row0, col0, r, c));
    }
    if lights(px, sprite, row0, col0) {
        let (r, c) = choose|r: int, c: int| #[trigger]
            on_grid(r, c) && !px[r][c] && sprite_pixel(sprite, row0, col0, r, c);
        assert(on_grid(r, c) && once[r][c] && sprite_pixel(sprite, row0, col0, r, c));
    }
}

impl Display {
    /// A display with every pixel dark.
    pub fn new() -> (d: Display)
        ensures
            d@ == blank(),
    {
        let d = Display { pixels: [[false; 64]; 32] };
        assert(d@ =~~= blank());
        d
    }

    /// Makes every pixel dark.
    pub fn clear_screen(&mut self)
        ensures
            final(self)@ == blank(),
    {
        self.pixels = [[false; 64]; 32];
        assert(self@ =~~= blank());
    }

    /// Sets the pixel in column `x` of row `y` to `lit`. A position off the
    /// grid is ignored.
    pub fn draw_pixel(&mut self, x: i32, y: i32, lit: bool)
        ensures
            on_grid(y as int, x as int) ==> final(self)@ == old(self)@.update(
                y as int,
                old(self)@[y as int].update(x as int, lit),
            ),
            !on_grid(y as int, x as int) ==> final(self)@ == old(self)@,
    {
        if 0 <= x && x < 64 && 0 <= y && y < 32 {
            let mut row = self.pixels[y as usize];
            row[x as usize] = lit;
            self.pixels[y as usize] = row;
            assert(self@ =~~= old(self)@.update(
                y as int,
                old(self)@[y as int].update(x as int, lit),
            ));
        }
    }

    /// Draws `sprite` with its top left corner in column `col0` of row
    /// `row0`, and says whether a lit pixel went dark.
    ///
    /// Each byte of the sprite is one row of eight pixels, the most
    /// significant bit leftmost. A set bit flips the pixel under it; a clear
    /// bit leaves it. Pixels that would fall off the grid are not drawn.
    pub fn draw_sprite(&mut self, sprite: &[u8], row0: u8, col0: u8) -> (hit: bool)
        ensures
            final(self)@ == blit(old(self)@, sprite@, row0 as int, col0 as int),
            hit == collides(old(self)@, sprite@, row0 as int, col0 as int),
    {
        let ghost px0 = self@;
        let mut hit = false;
        let rows: usize = if (row0 as usize) < HEIGHT {
            HEIGHT - row0 as usize
        } else {
            0
        };
        let mut i: usize = 0;
        while i < sprite.len() && i < rows
            invariant
                i <= sprite.len(),
                i <= rows,
                rows + row0 == HEIGHT || (rows == 0 && row0 >= HEIGHT),
                drawn_up_to(px0, sprite@, row0 as int, col0 as int, i as int, 0, self@, hit),
            decreases sprite.len() - i,
        {
            let byte = sprite[i];
            let y = row0 as usize + i;
            let mut j: usize = 0;
            while j < 8
                invariant
                    j <= 8,
                    i < sprite.len(),
                    byte == sprite@[i as int],
                    y == row0 + i,
                    y < HEIGHT,
                    drawn_up_to(
                        px0,
                        sprite@,
                        row0 as int,
                        col0 as int,
                        i as int,
                        j as int,
                        self@,
                        hit,
                    ),
                decreases 8 - j,
            {
                let x = col0 as usize + j;
                let ghost before = self@;
                let ghost hit_before = hit;
                if x < WIDTH && (byte >> (7 - j)) & 1 == 1 {
                    if self.pixels[y][x] {
                        hit = true;
                        self.draw_pixel(x as i32, y as i32, false);
                    } else {
                        self.draw_pixel(x as i32, y as i32, true);
                    }
                }
                proof {
                    lemma_bit_drawn(
                        px0,
                        sprite@,
                        row0 as int,
                        col0 as int,
                        i as int,
                        j as int,
                        before,
                        hit_before,
                        self@,
                        hit,
                    );
                }
                j += 1;
            }
            proof {
                lemma_row_drawn(px0, sprite@, row0 as int, col0 as int, i as int, self@, hit);
            }
            i += 1;
        }
        proof {
            lemma_all_drawn(px0, sprite@, row0 as int, col0 as int, i as int, self@, hit);
        }
        hit
    }

    /// Where in the window the square of the pixel in column `x` of row `y`
    /// has its top left corner, if that pixel is on the grid.
    pub fn window_origin(x: i32, y: i32) -> (p: Option<Point>)
        ensures
            on_grid(y as int, x as int) ==> p == Some(
                Point((x * PIXEL_SIZE) as i32, (y * PIXEL_SIZE) as i32),
            ),
            !on_grid(y as int, x as int) ==> p == None::<Point>,
    {
        if 0 <= x && x < 64 && 0 <= y && y < 32 {
            Some(Point(x * (PIXEL_SIZE as i32), y * (PIXEL_SIZE as i32)))
        } else {
            None
        }
    }
}

} // verus!
