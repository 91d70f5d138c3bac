//! The pixel surface: a `width` by `height` buffer of packed samples, stored
//! row by row, and the one drawing operation on it, the fill of a rectangle.

use vstd::prelude::*;
use vstd::arithmetic::div_mod::lemma_fundamental_div_mod;
use vstd::arithmetic::div_mod::lemma_fundamental_div_mod_converse;
use vstd::arithmetic::div_mod::lemma_mod_bound;
use crate::color::rgba_of;
use crate::color::unpack_rgba;

verus! {

/// A half-open rectangle of pixels: the columns `x0 <= x < x1` of the rows
/// `y0 <= y < y1`.
pub struct Rect {
    pub x0: int,
    pub y0: int,
    pub x1: int,
    pub y1: int,
}

impl Rect {
    /// Whether the pixel `(x, y)` lies in the rectangle.
    pub open spec fn contains(self, x: int, y: int) -> bool {
        self.x0 <= x < self.x1 && self.y0 <= y < self.y1
    }
}

/// What a surface holds: its size and its samples, row by row.
pub struct Raster {
    pub width: nat,
    pub height: nat,
    pub samples: Seq<u32>,
}

impl Raster {
    /// There is one sample for each pixel.
    pub open spec fn wf(self) -> bool {
        self.samples.len() == self.width * self.height
    }

    /// Whether `(x, y)` is a pixel of the raster.
    pub open spec fn contains(self, x: int, y: int) -> bool {
        0 <= x < self.width && 0 <= y < self.height
    }

    /// The sample of the pixel in column `x` of row `y`.
    pub open spec fn at(self, x: int, y: int) -> u32
        recommends
            self.contains(x, y),
    {
        self.samples[y * self.width + x]
    }

    /// The raster of the given size with every pixel fully transparent.
    pub open spec fn blank(width: nat, height: nat) -> Raster {
        Raster { width, height, samples: Seq::new(width * height, |k: int| 0u32) }
    }

    /// The raster after the pixels of `rect` that it has were set to `sample`:
    /// the part of `rect` outside the raster is cut off.
    pub open spec fn fill(self, rect: Rect, sample: u32) -> Raster {
        Raster {
            width: self.width,
            height: self.height,
            samples: Seq::new(
                self.samples.len(),
                |k: int|
                    if rect.contains(k % (self.width as int), k / (self.width as int)) {
                        sample
                    } else {
                        self.samples[k]
                    },
            ),
        }
    }

    /// The bytes handed to the host's image: for each sample in turn its red,
    /// green, blue and alpha byte.
    pub open spec fn rgba(self) -> Seq<u8> {
        Seq::new(4 * self.samples.len(), |k: int| rgba_of(self.samples[k / 4])[k % 4])
    }
}

/// The pixel in column `x` of row `y` has the index `y * width + x`, and no
/// other pixel has it.
pub proof fn lemma_pixel_index(width: int, height: int, x: int, y: int)
    requires
        0 <= x < width,
        0 <= y < height,
    ensures
        0 <= y * width + x < width * height,
        (y * width + x) % width == x,
        (y * width + x) / width == y,
{
    lemma_fundamental_div_mod_converse(y * width + x, width, y, x);
    assert(y * width + x < width * height) by (nonlinear_arith)
        requires
            0 <= x < width,
            0 <= y < height,
    ;
    assert(0 <= y * width) by (nonlinear_arith)
        requires
            0 <= y,
            0 <= width,
    ;
}

/// Every index below `width * height` is that of one pixel: column
/// `k % width` of row `k / width`.
pub proof fn lemma_pixel_coords(width: int, height: int, k: int)
    requires
        0 <= width,
        0 <= height,
        0 <= k < width * height,
    ensures
        0 <= k % width < width,
        0 <= k / width < height,
        k == (k / width) * width + k % width,
{
    assert(width > 0) by (nonlinear_arith)
        requires
            0 <= width,
            0 <= k < width * height,
    ;
    lemma_fundamental_div_mod(k, width);
    lemma_mod_bound(k, width);
    let q = k / width;
    let r = k % width;
    assert(0 <= q < height) by (nonlinear_arith)
        requires
            k == width * q + r,
            0 <= r < width,
            0 <= k < width * height,
    ;
    assert(width * q == q * width) by (nonlinear_arith);
}

/// A fill sets the pixels of the rectangle and leaves the others as they were.
pub proof fn lemma_fill_at(raster: Raster, rect: Rect, sample: u32, x: int, y: int)
    requires
        raster.wf(),
        raster.contains(x, y),
    ensures
        raster.fill(rect, sample).wf(),
        raster.fill(rect, sample).at(x, y) == if rect.contains(x, y) {
            sample
        } else {
            raster.at(x, y)
        },
{
    lemma_pixel_index(raster.width as int, raster.height as int, x, y);
}

/// A surface of pixels, owned by the one who paints it.
pub struct PixelSurface {
    width: usize,
    height: usize,
    data: Vec<u32>,
}

impl View for PixelSurface {
    type V = Raster;

    closed spec fn view(&self) -> Raster {
        Raster { width: self.width as nat, height: self.height as nat, samples: self.data@ }
    }
}

/// Whether a surface of this size can be held and handed to the host: its
/// bytes, four for each pixel, must be countable.
pub open spec fn surface_fits(width: int, height: int) -> bool {
    4 * (width * height) <= usize::MAX
}

impl PixelSurface {
    /// The surface holds one sample for each of its pixels, and its size fits.
    pub open spec fn wf(&self) -> bool {
        self@.wf() && surface_fits(self@.width as int, self@.height as int)
    }

    /// A fully transparent surface of the given size.
    pub fn new(width: usize, height: usize) -> (surface: PixelSurface)
        requires
            surface_fits(width as int, height as int),
        ensures
            surface.wf(),
            surface@ == Raster::blank(width as nat, height as nat),
    {
        assert(0 <= width * height) by (nonlinear_arith)
            requires
                0 <= width,
                0 <= height,
        ;
        let len: usize = width * height;
        let mut data: Vec<u32> = Vec::new();
        let mut k: usize = 0;
        while k < len
            invariant
                k <= len,
                data@.len() == k,
                forall|j: int| 0 <= j < k ==> data@[j] == 0u32,
            decreases len - k,
        {
            data.push(0u32);
            k = k + 1;
        }
        let surface = PixelSurface { width, height, data };
        assert(surface@.samples =~= Raster::blank(width as nat, height as nat).samples);
        surface
    }

    /// The number of pixels in a row.
    pub fn width(&self) -> (width: usize)
        ensures
            width == self@.width,
    {
        self.width
    }

    /// The number of rows.
    pub fn height(&self) -> (height: usize)
        ensures
            height == self@.height,
    {
        self.height
    }

    /// The sample of the pixel in column `x` of row `y`, if the surface has
    /// such a pixel.
    pub fn get(&self, x: usize, y: usize) -> (sample: Option<u32>)
        requires
            self.wf(),
        ensures
            sample == if self@.contains(x as int, y as int) {
                Some(self@.at(x as int, y as int))
            } else {
                None::<u32>
            },
    {
        if x < self.width && y < self.height {
            proof {
                lemma_pixel_index(self.width as int, self.height as int, x as int, y as int);
            }
            Some(self.data[y * self.width + x])
        } else {
            None
        }
    }

    /// The samples, row by row.
    pub fn samples(&self) -> (samples: &Vec<u32>)
        ensures
            samples@ == self@.samples,
    {
        &self.data
    }

    /// Sets the pixels of the rectangle `x0 <= x < x1`, `y0 <= y < y1` to
    /// `sample`; what lies outside the surface is cut off.
    pub fn fill_rect(&mut self, x0: usize, y0: usize, x1: usize, y1: usize, sample: u32)
        requires
            old(self).wf(),
        ensures
            final(self).wf(),
            final(self)@ == old(self)@.fill(
                (Rect { x0: x0 as int, y0: y0 as int, x1: x1 as int, y1: y1 as int }),
                sample,
            ),
    {
        let width: usize = self.width;
        let height: usize = self.height;
        let x_end: usize = if x1 < width { x1 } else { width };
        let y_end: usize = if y1 < height { y1 } else { height };
        let ghost rect = Rect { x0: x0 as int, y0: y0 as int, x1: x1 as int, y1: y1 as int };
        let ghost before = self.data@;
        let ghost w = width as int;
        let ghost h = height as int;
        let mut y: usize = y0;
        while y < y_end
            invariant
                y0 <= y,
                y_end <= height,
                x_end <= width,
                x_end == if x1 < width { x1 } else { width },
                y_end == if y1 < height { y1 } else { height },
                self.width == width,
                self.height == height,
                w == width,
                h == height,
                rect == (Rect { x0: x0 as int, y0: y0 as int, x1: x1 as int, y1: y1 as int }),
                before.len() == w * h,
                self.data@.len() == before.len(),
                surface_fits(w, h),
                forall|k: int|
                    0 <= k < w * h ==> #[trigger] self.data@[k] == if rect.contains(k % w, k / w)
                        && k / w < y {
                        sample
                    } else {
                        before[k]
                    },
            decreases y_end - y,
        {
            assert(y * width + width <= width * height) by (nonlinear_arith)
                requires
                    0 <= y < height,
                    0 <= width,
            ;
            let row: usize = y * width;
            let mut x: usize = x0;
            while x < x_end
                invariant
                    x0 <= x,
                    x_end <= width,
                    x_end <= x1,
                    y0 <= y < y_end,
                    y_end <= height,
                    y_end <= y1,
                    rect == (Rect { x0: x0 as int, y0: y0 as int, x1: x1 as int, y1: y1 as int }),
                    surface_fits(w, h),
                    row == y * width,
                    row + width <= width * height,
                    self.width == width,
                    self.height == height,
                    w == width,
                    h == height,
                    before.len() == w * h,
                    self.data@.len() == before.len(),
                    forall|k: int|
                        0 <= k < w * h ==> #[trigger] self.data@[k] == if rect.contains(
                            k % w,
                            k / w,
                        ) && (k / w < y || (k / w == y && k % w < x)) {
                            sample
                        } else {
                            before[k]
                        },
                decreases x_end - x,
            {
                let ghost prior = self.data@;
                self.data.set(row + x, sample);
                proof {
                    lemma_pixel_index(w, h, x as int, y as int);
                    assert forall|k: int| 0 <= k < w * h implies #[trigger] self.data@[k]
                        == if rect.contains(k % w, k / w) && (k / w < y || (k / w == y && k % w < x
                        + 1)) {
                        sample
                    } else {
                        before[k]
                    } by {
                        lemma_pixel_coords(w, h, k);
                        if k != row + x {
                            assert(self.data@[k] == prior[k]);
                        }
                    }
                }
                x = x + 1;
            }
            proof {
                assert forall|k: int| 0 <= k < w * h implies #[trigger] self.data@[k]
                    == if rect.contains(k % w, k / w) && k / w < y + 1 {
                    sample
                } else {
                    before[k]
                } by {
                    lemma_pixel_coords(w, h, k);
                }
            }
            y = y + 1;
        }
        proof {
            let filled = old(self)@.fill(rect, sample);
            assert forall|k: int| 0 <= k < w * h implies self.data@[k] == filled.samples[k] by {
                lemma_pixel_coords(w, h, k);
            }
            assert(self.data@ =~= filled.samples);
        }
    }

    /// The surface as the host's image takes it: four bytes for each sample,
    /// in the order red, green, blue, alpha.
    pub fn to_rgba(&self) -> (bytes: Vec<u8>)
        requires
            self.wf(),
        ensures
            bytes@ == self@.rgba(),
    {
        let len: usize = self.data.len();
        let mut bytes: Vec<u8> = Vec::new();
        let mut i: usize = 0;
        while i < len
            invariant
                i <= len,
                len == self.data@.len(),
                4 * len <= usize::MAX,
                bytes@.len() == 4 * i,
                forall|k: int| 0 <= k < 4 * i ==> bytes@[k] == rgba_of(self.data@[k / 4])[k % 4],
            decreases len - i,
        {
            let channels: [u8; 4] = unpack_rgba(self.data[i]);
            bytes.push(channels[0]);
            bytes.push(channels[1]);
            bytes.push(channels[2]);
            bytes.push(channels[3]);
            i = i + 1;
        }
        assert(bytes@ =~= self@.rgba());
        bytes
    }
}

} // verus!
