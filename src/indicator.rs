use vstd::prelude::*;

verus! {

/// The side of the square indicator image, in pixels.
pub const ICON_SIZE: usize = 32;

/// The radius of the dark disc behind the digit.
pub const DISC_RADIUS: i32 = 14;

/// Each glyph cell is drawn as a square of this many pixels.
pub const GLYPH_SCALE: usize = 2;

/// The column at which the glyph's left cells are drawn.
pub const GLYPH_LEFT: usize = 13;

/// The row at which the glyph's top cells are drawn.
pub const GLYPH_TOP: usize = 11;

/// The rows of the 3-by-5 glyph of digit `d` (1 to 9), top first; in each
/// row 4 is the left cell, 2 the middle one and 1 the right one.
pub open spec fn glyph_rows(d: int) -> Seq<u8> {
    if d == 1 {
        seq![2, 6, 2, 2, 7]
    } else if d == 2 {
        seq![7, 1, 7, 4, 7]
    } else if d == 3 {
        seq![7, 1, 7, 1, 7]
    } else if d == 4 {
        seq![5, 5, 7, 1, 1]
    } else if d == 5 {
        seq![7, 4, 7, 1, 7]
    } else if d == 6 {
        seq![7, 4, 7, 5, 7]
    } else if d == 7 {
        seq![7, 1, 1, 2, 2]
    } else if d == 8 {
        seq![7, 5, 7, 5, 7]
    } else {
        seq![7, 5, 7, 1, 7]
    }
}

/// Whether cell `c` (0 to 2, left to right) of a glyph row mask is set.
pub open spec fn cell_set(mask: u8, c: int) -> bool {
    if c == 0 {
        mask >= 4
    } else if c == 1 {
        mask % 4 >= 2
    } else {
        mask % 2 == 1
    }
}

/// The digit drawn for position `number`: capped at 9; none for 0.
pub open spec fn shown_digit(number: int) -> int {
    if number > 9 {
        9
    } else {
        number
    }
}

/// Whether pixel (`x`, `y`) belongs to the digit drawn for `number`.
pub open spec fn digit_lit(number: int, x: int, y: int) -> bool {
    let d = shown_digit(number);
    &&& d > 0
    &&& GLYPH_LEFT <= x < GLYPH_LEFT + 3 * GLYPH_SCALE
    &&& GLYPH_TOP <= y < GLYPH_TOP + 5 * GLYPH_SCALE
    &&& cell_set(
        glyph_rows(d)[(y - GLYPH_TOP) / GLYPH_SCALE as int],
        (x - GLYPH_LEFT) / GLYPH_SCALE as int,
    )
}

/// Whether pixel (`x`, `y`) lies on the background disc.
pub open spec fn in_disc(x: int, y: int) -> bool {
    (x - 16) * (x - 16) + (y - 16) * (y - 16) <= DISC_RADIUS * DISC_RADIUS
}

/// Channel `ch` (red, green, blue, alpha) of pixel (`x`, `y`): opaque white
/// on the digit, opaque dark grey elsewhere on the disc, transparent outside.
pub open spec fn channel(number: int, x: int, y: int, ch: int) -> u8 {
    if digit_lit(number, x, y) {
        255
    } else if in_disc(x, y) {
        if ch == 3 {
            255
        } else {
            30
        }
    } else {
        0
    }
}

/// Where channel `ch` of pixel (`x`, `y`) stands in the row-major RGBA buffer.
pub open spec fn pixel_index(x: int, y: int, ch: int) -> int {
    4 * (ICON_SIZE * y + x) + ch
}

/// The row mask `r` of the glyph of digit `d`.
fn glyph_row(d: usize, r: usize) -> (m: u8)
    requires
        1 <= d <= 9,
        r < 5,
    ensures
        m == glyph_rows(d as int)[r as int],
{
    let rows: [u8; 5] = if d == 1 {
        [2, 6, 2, 2, 7]
    } else if d == 2 {
        [7, 1, 7, 4, 7]
    } else if d == 3 {
        [7, 1, 7, 1, 7]
    } else if d == 4 {
        [5, 5, 7, 1, 1]
    } else if d == 5 {
        [7, 4, 7, 1, 7]
    } else if d == 6 {
        [7, 4, 7, 5, 7]
    } else if d == 7 {
        [7, 1, 1, 2, 2]
    } else if d == 8 {
        [7, 5, 7, 5, 7]
    } else {
        [7, 5, 7, 1, 7]
    };
    assert(rows@ =~= glyph_rows(d as int));
    rows[r]
}

/// Whether pixel (`x`, `y`) belongs to the digit drawn for `number`.
fn is_digit_pixel(number: usize, x: usize, y: usize) -> (r: bool)
    requires
        x < ICON_SIZE,
        y < ICON_SIZE,
    ensures
        r == digit_lit(number as int, x as int, y as int),
{
    let d: usize = if number > 9 {
        9
    } else {
        number
    };
    if d == 0 || x < GLYPH_LEFT || x >= GLYPH_LEFT + 3 * GLYPH_SCALE || y < GLYPH_TOP || y
        >= GLYPH_TOP + 5 * GLYPH_SCALE {
        return false;
    }
    let mask = glyph_row(d, (y - GLYPH_TOP) / GLYPH_SCALE);
    let c = (x - GLYPH_LEFT) / GLYPH_SCALE;
    if c == 0 {
        mask >= 4
    } else if c == 1 {
        mask % 4 >= 2
    } else {
        mask % 2 == 1
    }
}

/// Whether pixel (`x`, `y`) lies on the background disc.
fn is_disc_pixel(x: usize, y: usize) -> (r: bool)
    requires
        x < ICON_SIZE,
        y < ICON_SIZE,
    ensures
        r == in_disc(x as int, y as int),
{
    let dx: i32 = x as i32 - 16;
    let dy: i32 = y as i32 - 16;
    assert(0 <= dx * dx <= 256 && 0 <= dy * dy <= 256) by (nonlinear_arith)
        requires
            -16 <= dx <= 16,
            -16 <= dy <= 16,
    ;
    dx * dx + dy * dy <= DISC_RADIUS * DISC_RADIUS
}

/// The RGBA pixels, row by row, of the indicator that shows `number`: a
/// dark disc on a transparent square with the digit in white, capped at 9,
/// and no digit for 0.
pub fn number_icon_rgba(number: usize) -> (r: Vec<u8>)
    ensures
        r@.len() == 4 * ICON_SIZE * ICON_SIZE,
        forall|x: int, y: int, ch: int|
            0 <= x < ICON_SIZE && 0 <= y < ICON_SIZE && 0 <= ch < 4 ==> r@[#[trigger] pixel_index(
                x,
                y,
                ch,
            )] == channel(number as int, x, y, ch),
{
    let mut rgba: Vec<u8> = Vec::new();
    let mut y: usize = 0;
    while y < ICON_SIZE
        invariant
            y <= ICON_SIZE,
            rgba@.len() == pixel_index(0, y as int, 0),
            forall|x0: int, y0: int, ch: int|
                0 <= x0 < ICON_SIZE && 0 <= y0 < y && 0 <= ch < 4 ==> rgba@[#[trigger] pixel_index(
                    x0,
                    y0,
                    ch,
                )] == channel(number as int, x0, y0, ch),
        decreases ICON_SIZE - y,
    {
        let mut x: usize = 0;
        while x < ICON_SIZE
            invariant
                y < ICON_SIZE,
                x <= ICON_SIZE,
                rgba@.len() == pixel_index(x as int, y as int, 0),
                forall|x0: int, y0: int, ch: int|
                    0 <= x0 < ICON_SIZE && 0 <= y0 < ICON_SIZE && 0 <= ch < 4 && (y0 < y || (y0
                        == y && x0 < x)) ==> rgba@[#[trigger] pixel_index(x0, y0, ch)] == channel(
                        number as int,
                        x0,
                        y0,
                        ch,
                    ),
            decreases ICON_SIZE - x,
        {
            let (shade, alpha): (u8, u8) = if is_digit_pixel(number, x, y) {
                (255, 255)
            } else if is_disc_pixel(x, y) {
                (30, 255)
            } else {
                (0, 0)
            };
            let ghost before = rgba@;
            rgba.push(shade);
            rgba.push(shade);
            rgba.push(shade);
            rgba.push(alpha);
            assert forall|x0: int, y0: int, ch: int|
                0 <= x0 < ICON_SIZE && 0 <= y0 < ICON_SIZE && 0 <= ch < 4 && (y0 < y || (y0 == y
                    && x0 < x + 1)) implies rgba@[#[trigger] pixel_index(x0, y0, ch)] == channel(
                number as int,
                x0,
                y0,
                ch,
            ) by {
                if y0 < y || x0 < x {
                    assert(rgba@[pixel_index(x0, y0, ch)] == before[pixel_index(x0, y0, ch)]);
                }
            }
            x = x + 1;
        }
        y = y + 1;
    }
    rgba
}

} // verus!
