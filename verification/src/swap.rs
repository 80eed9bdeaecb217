//! The diagonal swap: a pixel may take its colour from the pixel across the
//! diagonal of its two-by-two block.

use vstd::prelude::*;

verus! {

/// Number of equally likely outcomes that a draw is reduced to.
pub const DRAW_RANGE: usize = 10;

/// The coordinate beside `c` in its pair: `c + 1` for an even one, `c - 1`
/// for an odd one. It is `c` with its lowest bit toggled.
pub open spec fn toggled(c: int) -> int {
    if c % 2 == 0 {
        c + 1
    } else {
        c - 1
    }
}

/// Whether the diagonal neighbour of `(x, y)` lies inside a grid of `w`
/// columns and `h` rows.
pub open spec fn neighbour_inside(x: int, y: int, w: int, h: int) -> bool {
    toggled(x) < w && toggled(y) < h
}

/// Whether a draw selects the swap at the given strength: the draw, reduced
/// to ten outcomes, falls below the strength.
pub open spec fn draw_swaps(strength: int, draw: int) -> bool {
    draw % (DRAW_RANGE as int) < strength
}

/// The coordinate from which the output pixel at `(x, y)` takes its colour.
pub open spec fn source_of(x: int, y: int, w: int, h: int, strength: int, draw: int) -> (
    int,
    int,
) {
    if neighbour_inside(x, y, w, h) && draw_swaps(strength, draw) {
        (toggled(x), toggled(y))
    } else {
        (x, y)
    }
}

/// Toggles the lowest bit of a coordinate.
pub fn toggle(c: u32) -> (t: u32)
    ensures
        t as int == toggled(c as int),
{
    assert(c % 2 == 0 ==> c ^ 1 == c + 1) by (bit_vector);
    assert(c % 2 != 0 ==> c ^ 1 == c - 1) by (bit_vector);
    c ^ 1
}

/// Tells whether the pixel at `(x, y)` has its diagonal neighbour inside the
/// grid, so that it may swap.
pub fn has_neighbour(x: u32, y: u32, width: u32, height: u32) -> (inside: bool)
    ensures
        inside == neighbour_inside(x as int, y as int, width as int, height as int),
{
    toggle(x) < width && toggle(y) < height
}

/// Decides, from a draw, where the output pixel at `(x, y)` reads its colour.
pub fn swap_source(x: u32, y: u32, width: u32, height: u32, strength: u8, draw: usize) -> (source: (
    u32,
    u32,
))
    ensures
        (source.0 as int, source.1 as int) == source_of(
            x as int,
            y as int,
            width as int,
            height as int,
            strength as int,
            draw as int,
        ),
{
    if has_neighbour(x, y, width, height) && strength as usize > draw % DRAW_RANGE {
        (toggle(x), toggle(y))
    } else {
        (x, y)
    }
}

/// Swap locality: the source of a pixel is the pixel itself or its diagonal
/// neighbour, which shares its two-by-two block and differs from it on both
/// axes; and the neighbour is the source only where it lies inside the grid.
pub proof fn lemma_swap_is_local(x: int, y: int, w: int, h: int, strength: int, draw: int)
    requires
        0 <= x < w,
        0 <= y < h,
    ensures
        ({
            let (sx, sy) = source_of(x, y, w, h, strength, draw);
            &&& 0 <= sx < w && 0 <= sy < h
            &&& sx / 2 == x / 2 && sy / 2 == y / 2
            &&& (sx, sy) == (x, y) || (sx, sy) == (toggled(x), toggled(y))
            &&& (sx, sy) != (x, y) ==> sx != x && sy != y && neighbour_inside(x, y, w, h)
                && draw_swaps(strength, draw)
        }),
{
}

/// At strength zero no draw selects the swap.
pub proof fn lemma_no_strength_no_swap(x: int, y: int, w: int, h: int, draw: int)
    requires
        0 <= draw,
    ensures
        source_of(x, y, w, h, 0, draw) == (x, y),
{
}

/// In a grid of one column or of one row no pixel has its diagonal
/// neighbour inside, whatever the strength and the draw.
pub proof fn lemma_thin_grid_no_swap(x: int, y: int, w: int, h: int, strength: int, draw: int)
    requires
        0 <= x < w,
        0 <= y < h,
        w == 1 || h == 1,
    ensures
        source_of(x, y, w, h, strength, draw) == (x, y),
{
}

} // verus!
