//! The pixel transform: every output pixel takes the colour of itself or of
//! its diagonal neighbour, quantized channel by channel, and the new grid
//! is written out as PNG.

use vstd::prelude::*;
use crate::codec::{encode_png, png_encoding};
use crate::grid::{lemma_index_to_coordinate, lemma_offset_in_bounds, GridModel, PixelGrid};
use crate::quantize::{
    lemma_quantized_idempotent,
    lemma_quantized_in_range,
    quantize_channel,
    quantized,
    valid_level,
};
use crate::random::next_draw;
use crate::swap::{
    has_neighbour,
    lemma_no_strength_no_swap,
    lemma_swap_is_local,
    lemma_thin_grid_no_swap,
    source_of,
    swap_source,
};
use rand::rngs::ThreadRng;

verus! {

/// Place, among the samples of `g`, of the sample that output sample `i`
/// is made from, when `draw` is the draw of its pixel.
pub open spec fn source_offset(g: GridModel, strength: int, draw: int, i: int) -> int {
    let p = i / 4;
    let (sx, sy) = source_of(
        p % (g.width as int),
        p / (g.width as int),
        g.width as int,
        g.height as int,
        strength,
        draw,
    );
    g.offset(sx, sy, i % 4)
}

/// Output sample `i`: the quantized sample of its source.
pub open spec fn output_sample(g: GridModel, q: int, strength: int, draw: int, i: int) -> u8 {
    quantized(g.samples[source_offset(g, strength, draw, i)] as int, q) as u8
}

/// The grid that the transform makes of `g` at level `q` and swap strength
/// `strength`, when `draws` holds one draw for each pixel, row by row.
pub open spec fn transformed(g: GridModel, q: int, strength: int, draws: Seq<usize>) -> GridModel {
    GridModel {
        width: g.width,
        height: g.height,
        samples: Seq::new(
            g.samples.len(),
            |i: int| output_sample(g, q, strength, draws[i / 4] as int, i),
        ),
    }
}

/// The grid `g` with every sample quantized at level `q` and no pixel moved.
pub open spec fn quantized_grid(g: GridModel, q: int) -> GridModel {
    GridModel {
        width: g.width,
        height: g.height,
        samples: Seq::new(g.samples.len(), |i: int| quantized(g.samples[i] as int, q) as u8),
    }
}

/// The PNG bytes of the transform of `g` under the given draws.
pub open spec fn rendering(g: GridModel, q: int, strength: int, draws: Seq<usize>) -> Seq<u8> {
    png_encoding(g.width, g.height, transformed(g, q, strength, draws).samples)
}

/// Whether `encoded` is what the transform of `g` gives for some draws, one
/// for each pixel.
pub open spec fn is_rendering(g: GridModel, q: int, strength: int, encoded: Seq<u8>) -> bool {
    exists|draws: Seq<usize>|
        draws.len() == g.pixels() && encoded == #[trigger] rendering(g, q, strength, draws)
}

/// Whether no pixel of `g` can swap at the given strength: the strength is
/// zero, or the grid is one pixel wide or high.
pub open spec fn swap_free(g: GridModel, strength: int) -> bool {
    strength == 0 || g.width == 1 || g.height == 1
}

/// The source of every output sample lies inside the grid.
proof fn lemma_source_in_bounds(g: GridModel, strength: int, draw: int, i: int)
    requires
        g.wf(),
        0 <= i < g.samples.len(),
    ensures
        0 <= source_offset(g, strength, draw, i) < g.samples.len(),
        swap_free(g, strength) && 0 <= draw ==> source_offset(g, strength, draw, i) == i,
{
    let p = i / 4;
    let w = g.width as int;
    lemma_index_to_coordinate(g, p);
    lemma_swap_is_local(p % w, p / w, w, g.height as int, strength, draw);
    let (sx, sy) = source_of(p % w, p / w, w, g.height as int, strength, draw);
    lemma_offset_in_bounds(g, sx, sy, i % 4);
    if swap_free(g, strength) && 0 <= draw {
        if strength == 0 {
            lemma_no_strength_no_swap(p % w, p / w, w, g.height as int, draw);
        } else {
            lemma_thin_grid_no_swap(p % w, p / w, w, g.height as int, strength, draw);
        }
    }
}

/// Appends to `samples` the four channels of output pixel `p`.
fn push_pixel(ori: &PixelGrid, q: u8, strength: u8, p: usize, draw: usize, samples: &mut Vec<u8>)
    requires
        ori.wf(),
        valid_level(q as int),
        p < ori@.pixels(),
        old(samples)@.len() == 4 * p,
    ensures
        final(samples)@.len() == 4 * (p + 1),
        forall|i: int| 0 <= i < 4 * p ==> final(samples)@[i] == old(samples)@[i],
        forall|i: int|
            4 * p <= i < 4 * (p + 1) ==> final(samples)@[i] == output_sample(
                ori@,
                q as int,
                strength as int,
                draw as int,
                i,
            ),
{
    let width = ori.width();
    let height = ori.height();
    proof {
        lemma_index_to_coordinate(ori@, p as int);
    }
    let x = (p % width as usize) as u32;
    let y = (p / width as usize) as u32;
    let (sx, sy) = swap_source(x, y, width, height, strength, draw);
    proof {
        lemma_swap_is_local(
            x as int,
            y as int,
            width as int,
            height as int,
            strength as int,
            draw as int,
        );
    }
    let pixel = ori.get_pixel(sx, sy);
    let red = quantize_channel(pixel[0], q);
    let green = quantize_channel(pixel[1], q);
    let blue = quantize_channel(pixel[2], q);
    let alpha = quantize_channel(pixel[3], q);
    samples.push(red);
    samples.push(green);
    samples.push(blue);
    samples.push(alpha);
    proof {
        assert forall|i: int| 4 * p <= i < 4 * (p + 1) implies samples@[i] == output_sample(
            ori@,
            q as int,
            strength as int,
            draw as int,
            i,
        ) by {
            let c = i - 4 * p;
            assert(i / 4 == p && i % 4 == c);
            assert(source_offset(ori@, strength as int, draw as int, i) == ori@.offset(
                sx as int,
                sy as int,
                c,
            ));
            assert(pixel[c] == ori@.sample(sx as int, sy as int, c));
        }
    }
}

/// Transforms a grid under given draws, one for each pixel, row by row. A
/// draw is looked at only where the pixel has its diagonal neighbour inside
/// the grid.
pub fn transform(ori: &PixelGrid, color_quantization: u8, pixel_switch: u8, draws: &Vec<usize>) -> (out:
    PixelGrid)
    requires
        ori.wf(),
        valid_level(color_quantization as int),
        draws@.len() == ori@.pixels(),
    ensures
        out@ == transformed(ori@, color_quantization as int, pixel_switch as int, draws@),
        out.wf(),
{
    let count = draws.len();
    let mut samples: Vec<u8> = Vec::with_capacity(ori.as_raw().len());
    let mut p: usize = 0;
    while p < count
        invariant
            ori.wf(),
            valid_level(color_quantization as int),
            count == draws@.len() == ori@.pixels(),
            p <= count,
            samples@.len() == 4 * p,
            forall|i: int|
                0 <= i < 4 * p ==> samples@[i] == output_sample(
                    ori@,
                    color_quantization as int,
                    pixel_switch as int,
                    draws@[i / 4] as int,
                    i,
                ),
        decreases count - p,
    {
        push_pixel(ori, color_quantization, pixel_switch, p, draws[p], &mut samples);
        p += 1;
    }
    let grid = PixelGrid::from_raw(ori.width(), ori.height(), samples);
    assert(grid is Some && grid->0@ =~= transformed(
        ori@,
        color_quantization as int,
        pixel_switch as int,
        draws@,
    )) by {
        assert(samples@ =~= transformed(
            ori@,
            color_quantization as int,
            pixel_switch as int,
            draws@,
        ).samples);
    }
    grid.unwrap()
}

/// Transforms a grid with a fresh draw for every pixel that may swap.
fn transform_at_random(ori: &PixelGrid, color_quantization: u8, pixel_switch: u8, rng: &mut ThreadRng) -> (out:
    (PixelGrid, Ghost<Seq<usize>>))
    requires
        ori.wf(),
        valid_level(color_quantization as int),
    ensures
        out.1@.len() == ori@.pixels(),
        out.0@ == transformed(ori@, color_quantization as int, pixel_switch as int, out.1@),
        out.0.wf(),
{
    let width = ori.width();
    let height = ori.height();
    let count = ori.as_raw().len() / 4;
    let mut samples: Vec<u8> = Vec::with_capacity(ori.as_raw().len());
    let ghost mut drawn: Seq<usize> = Seq::empty();
    let mut p: usize = 0;
    while p < count
        invariant
            ori.wf(),
            valid_level(color_quantization as int),
            width == ori@.width,
            height == ori@.height,
            count == ori@.pixels(),
            p <= count,
            drawn.len() == p,
            samples@.len() == 4 * p,
            forall|i: int|
                0 <= i < 4 * p ==> samples@[i] == output_sample(
                    ori@,
                    color_quantization as int,
                    pixel_switch as int,
                    drawn[i / 4] as int,
                    i,
                ),
        decreases count - p,
    {
        proof {
            lemma_index_to_coordinate(ori@, p as int);
        }
        let x = (p % width as usize) as u32;
        let y = (p / width as usize) as u32;
        let draw = if has_neighbour(x, y, width, height) {
            next_draw(rng)
        } else {
            0
        };
        push_pixel(ori, color_quantization, pixel_switch, p, draw, &mut samples);
        proof {
            drawn = drawn.push(draw);
        }
        p += 1;
    }
    let grid = PixelGrid::from_raw(width, height, samples);
    assert(grid is Some && grid->0@ =~= transformed(
        ori@,
        color_quantization as int,
        pixel_switch as int,
        drawn,
    )) by {
        assert(samples@ =~= transformed(
            ori@,
            color_quantization as int,
            pixel_switch as int,
            drawn,
        ).samples);
    }
    (grid.unwrap(), Ghost(drawn))
}

/// Applies the filter to a decoded image and encodes the result as PNG.
///
/// The outcome is the rendering of the image under some draws. Where no
/// pixel can swap it is fully determined: the PNG of the quantized image.
pub fn calc_new_image(ori: &PixelGrid, color_quantization: u8, pixel_switch: u8) -> (encoded: Vec<u8>)
    requires
        ori.wf(),
        valid_level(color_quantization as int),
    ensures
        is_rendering(ori@, color_quantization as int, pixel_switch as int, encoded@),
        swap_free(ori@, pixel_switch as int) ==> encoded@ == png_encoding(
            ori@.width,
            ori@.height,
            quantized_grid(ori@, color_quantization as int).samples,
        ),
{
    let mut rng = rand::thread_rng();
    let (new_image, Ghost(drawn)) = transform_at_random(
        ori,
        color_quantization,
        pixel_switch,
        &mut rng,
    );
    proof {
        assert(new_image@.samples.len() == new_image@.width * new_image@.height * 4);
        if swap_free(ori@, pixel_switch as int) {
            lemma_swap_free_is_quantization(
                ori@,
                color_quantization as int,
                pixel_switch as int,
                drawn,
            );
        }
    }
    let encoded = encode_png(new_image.width(), new_image.height(), new_image.as_raw());
    assert(encoded@ == rendering(ori@, color_quantization as int, pixel_switch as int, drawn));
    encoded
}

/// The transform read by coordinates: channel `c` of the output pixel at
/// `(x, y)` is the quantized channel `c` of its source, and the source is a
/// pixel of the grid: the pixel itself or its diagonal neighbour.
pub proof fn lemma_transformed_sample(
    g: GridModel,
    q: int,
    strength: int,
    draws: Seq<usize>,
    x: int,
    y: int,
    c: int,
)
    requires
        g.wf(),
        g.contains(x, y),
        0 <= c < 4,
        draws.len() == g.pixels(),
    ensures
        ({
            let draw = draws[y * g.width + x] as int;
            let (sx, sy) = source_of(x, y, g.width as int, g.height as int, strength, draw);
            &&& g.contains(sx, sy)
            &&& transformed(g, q, strength, draws).sample(x, y, c) == quantized(
                g.sample(sx, sy, c) as int,
                q,
            ) as u8
        }),
{
    let w = g.width as int;
    let i = g.offset(x, y, c);
    lemma_offset_in_bounds(g, x, y, c);
    assert(i / 4 == y * w + x && i % 4 == c);
    lemma_swap_is_local(x, y, w, g.height as int, strength, draws[y * w + x] as int);
}

/// Where no pixel can swap, the transform is the quantization of every
/// sample in its place, whatever the draws.
pub proof fn lemma_swap_free_is_quantization(g: GridModel, q: int, strength: int, draws: Seq<usize>)
    requires
        g.wf(),
        swap_free(g, strength),
        draws.len() == g.pixels(),
    ensures
        transformed(g, q, strength, draws) == quantized_grid(g, q),
{
    let t = transformed(g, q, strength, draws);
    let z = quantized_grid(g, q);
    assert forall|i: int| 0 <= i < g.samples.len() implies t.samples[i] == z.samples[i] by {
        lemma_source_in_bounds(g, strength, draws[i / 4] as int, i);
    }
    assert(t.samples =~= z.samples);
}

/// Determinism without swapping: at strength zero the rendering is the same
/// under any two sequences of draws, so repeated transforms of one image at
/// one level give the same bytes.
pub proof fn lemma_no_swap_is_deterministic(g: GridModel, q: int, first: Seq<usize>, second: Seq<usize>)
    requires
        g.wf(),
        first.len() == g.pixels(),
        second.len() == g.pixels(),
    ensures
        transformed(g, q, 0, first) == transformed(g, q, 0, second),
        rendering(g, q, 0, first) == rendering(g, q, 0, second),
{
    lemma_swap_free_is_quantization(g, q, 0, first);
    lemma_swap_free_is_quantization(g, q, 0, second);
}

/// Idempotence: transforming, at strength zero, a grid that was already
/// transformed at strength zero and the same level gives that grid again.
pub proof fn lemma_transform_idempotent(g: GridModel, q: int, first: Seq<usize>, second: Seq<usize>)
    requires
        g.wf(),
        valid_level(q),
        first.len() == g.pixels(),
        second.len() == g.pixels(),
    ensures
        transformed(transformed(g, q, 0, first), q, 0, second) == transformed(g, q, 0, first),
{
    let once = transformed(g, q, 0, first);
    lemma_swap_free_is_quantization(g, q, 0, first);
    lemma_swap_free_is_quantization(once, q, 0, second);
    let twice = quantized_grid(once, q);
    assert forall|i: int| 0 <= i < g.samples.len() implies twice.samples[i] == once.samples[i] by {
        let v = g.samples[i] as int;
        lemma_quantized_in_range(v, q);
        lemma_quantized_idempotent(v, q);
    }
    assert(twice.samples =~= once.samples);
}

} // verus!
