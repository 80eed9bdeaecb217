//! Decoded images: a rectangle of RGBA pixels with 8 bits per channel, held
//! row by row.

use vstd::prelude::*;

verus! {

/// Number of channels of one pixel: red, green, blue, alpha.
pub const CHANNELS: usize = 4;

/// What a pixel grid is: its two dimensions and its samples, four for each
/// pixel, the rows one after the other from the top.
pub struct GridModel {
    pub width: nat,
    pub height: nat,
    pub samples: Seq<u8>,
}

impl GridModel {
    /// Number of pixels.
    pub open spec fn pixels(self) -> nat {
        self.width * self.height
    }

    /// A grid has at least one pixel, and exactly four samples for each.
    pub open spec fn wf(self) -> bool {
        &&& 1 <= self.width <= u32::MAX
        &&& 1 <= self.height <= u32::MAX
        &&& self.samples.len() == self.pixels() * 4
    }

    /// Whether `(x, y)` is a coordinate of the grid.
    pub open spec fn contains(self, x: int, y: int) -> bool {
        0 <= x < self.width && 0 <= y < self.height
    }

    /// Place, among the samples, of channel `c` of the pixel at `(x, y)`.
    pub open spec fn offset(self, x: int, y: int, c: int) -> int {
        (y * self.width + x) * 4 + c
    }

    /// Channel `c` of the pixel at `(x, y)`.
    pub open spec fn sample(self, x: int, y: int, c: int) -> u8 {
        self.samples[self.offset(x, y, c)]
    }
}

/// The samples of the pixels inside a grid lie inside its sample sequence,
/// each pixel at a place of its own.
pub proof fn lemma_offset_in_bounds(g: GridModel, x: int, y: int, c: int)
    requires
        g.wf(),
        g.contains(x, y),
        0 <= c < 4,
    ensures
        0 <= y * g.width + x < g.pixels(),
        0 <= g.offset(x, y, c) < g.samples.len(),
        (y * g.width + x) % (g.width as int) == x,
        (y * g.width + x) / (g.width as int) == y,
{
    let w = g.width as int;
    let h = g.height as int;
    assert(0 <= y * w) by (nonlinear_arith)
        requires
            0 <= y,
            0 < w,
    ;
    assert(y * w + w <= h * w) by (nonlinear_arith)
        requires
            y < h,
            0 < w,
    ;
    assert(h * w == w * h) by (nonlinear_arith);
    vstd::arithmetic::div_mod::lemma_fundamental_div_mod_converse(y * w + x, w, y, x);
}

/// A pixel index below the number of pixels names a coordinate of the grid.
pub proof fn lemma_index_to_coordinate(g: GridModel, p: int)
    requires
        g.wf(),
        0 <= p < g.pixels(),
    ensures
        g.contains(p % (g.width as int), p / (g.width as int)),
        (p / (g.width as int)) * g.width + p % (g.width as int) == p,
{
    let w = g.width as int;
    let h = g.height as int;
    vstd::arithmetic::div_mod::lemma_fundamental_div_mod(p, w);
    vstd::arithmetic::div_mod::lemma_mod_bound(p, w);
    assert(w * h == h * w) by (nonlinear_arith);
    vstd::arithmetic::div_mod::lemma_div_by_multiple_is_strongly_ordered(p, h * w, h, w);
    vstd::arithmetic::div_mod::lemma_div_by_multiple(h, w);
    vstd::arithmetic::div_mod::lemma_div_pos_is_pos(p, w);
    assert((p / w) * w == w * (p / w)) by (nonlinear_arith);
}

/// A decoded image. Its fields are private: every grid that exists is well
/// formed.
#[derive(Debug, Clone, PartialEq, Eq)]
pub struct PixelGrid {
    width: u32,
    height: u32,
    samples: Vec<u8>,
}

impl View for PixelGrid {
    type V = GridModel;

    closed spec fn view(&self) -> GridModel {
        GridModel {
            width: self.width as nat,
            height: self.height as nat,
            samples: self.samples@,
        }
    }
}

impl PixelGrid {
    /// Validity of the grid: that of its model.
    pub open spec fn wf(&self) -> bool {
        self@.wf()
    }

    /// Makes a grid of the given dimensions from its samples. There is one
    /// exactly when neither dimension is zero and the samples are four for
    /// each pixel.
    pub fn from_raw(width: u32, height: u32, samples: Vec<u8>) -> (grid: Option<PixelGrid>)
        ensures
            grid is Some <==> (GridModel { width: width as nat, height: height as nat, samples: samples@ }).wf(),
            grid is Some ==> grid->0@ == (GridModel {
                width: width as nat,
                height: height as nat,
                samples: samples@,
            }),
    {
        proof {
            assert(0 <= width * height <= 0xffff_ffff * 0xffff_ffff) by (nonlinear_arith)
                requires
                    0 <= width <= 0xffff_ffff,
                    0 <= height <= 0xffff_ffff,
            ;
        }
        let needed: u128 = (width as u128) * (height as u128) * 4;
        if width >= 1 && height >= 1 && samples.len() as u128 == needed {
            Some(PixelGrid { width, height, samples })
        } else {
            None
        }
    }

    /// Number of pixels in a row.
    pub fn width(&self) -> (w: u32)
        ensures
            w == self@.width,
    {
        self.width
    }

    /// Number of rows.
    pub fn height(&self) -> (h: u32)
        ensures
            h == self@.height,
    {
        self.height
    }

    /// The samples, four for each pixel, row by row.
    pub fn as_raw(&self) -> (samples: &Vec<u8>)
        ensures
            samples@ == self@.samples,
    {
        &self.samples
    }

    /// Gives up the grid for its samples.
    pub fn into_raw(self) -> (samples: Vec<u8>)
        ensures
            samples@ == self@.samples,
    {
        self.samples
    }

    /// The four channels of the pixel at `(x, y)`.
    pub fn get_pixel(&self, x: u32, y: u32) -> (pixel: [u8; 4])
        requires
            self.wf(),
            self@.contains(x as int, y as int),
        ensures
            forall|c: int| 0 <= c < 4 ==> pixel[c] == self@.sample(x as int, y as int, c),
    {
        proof {
            lemma_offset_in_bounds(self@, x as int, y as int, 0);
            lemma_offset_in_bounds(self@, x as int, y as int, 3);
            assert(self@.offset(x as int, y as int, 3) == (y * self.width + x) * 4 + 3);
            assert(self.samples.len() == self.samples@.len());
            assert(0 <= y * self.width) by (nonlinear_arith)
                requires
                    0 <= y,
                    0 <= self.width,
            ;
        }
        let at: usize = (y as usize * self.width as usize + x as usize) * CHANNELS;
        [self.samples[at], self.samples[at + 1], self.samples[at + 2], self.samples[at + 3]]
    }
}

} // verus!
