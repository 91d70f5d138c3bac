//! The grid as the drawer sees it: cells, the viewport, and the rectangle and
//! the sample that belong to a cell.

use vstd::prelude::*;
use crate::color::argb;
use crate::color::Rgb;
use crate::color::TRANSPARENT;
use crate::surface::surface_fits;
use crate::surface::Rect;

verus! {

/// Width of the rectangle of one grid cell, in pixels.
pub const CELL_WIDTH: usize = 5;

/// Height of the rectangle of one grid cell, in pixels.
pub const CELL_HEIGHT: usize = 8;

/// One grid position as the terminal wants it shown. The drawer reads the
/// position and the background; the glyph and the foreground pass through.
#[derive(Clone, Copy, Debug, PartialEq, Eq)]
pub struct RenderableCell {
    /// The row of the grid, counted from the top.
    pub line: usize,
    /// The column of the grid, counted from the left.
    pub column: usize,
    /// What the cell shows.
    pub glyph: char,
    pub fg: Rgb,
    pub bg: Rgb,
    /// Opacity of the background: 0 is fully transparent, 255 is opaque.
    pub bg_alpha: u8,
}

/// The size of the viewport, in pixels.
#[derive(Clone, Copy, Debug, PartialEq, Eq)]
pub struct Size {
    pub width: usize,
    pub height: usize,
}

impl Size {
    /// Whether a surface of this size can be held.
    pub open spec fn spec_fits(&self) -> bool {
        surface_fits(self.width as int, self.height as int)
    }

    /// Tells whether a surface of this size can be held.
    #[verifier::when_used_as_spec(spec_fits)]
    pub fn fits(&self) -> (ok: bool)
        ensures
            ok == self.fits(),
    {
        if self.width == 0 || self.height == 0 {
            assert(self.width * self.height == 0) by (nonlinear_arith)
                requires
                    self.width == 0 || self.height == 0,
            ;
            return true;
        }
        let limit: usize = usize::MAX / 4;
        let rows: usize = limit / self.width;
        assert(self.height <= rows <==> self.width * self.height <= limit) by (nonlinear_arith)
            requires
                rows == limit / self.width,
                self.width > 0,
        ;
        self.height <= rows
    }

    /// The viewport that shows a grid of `columns` by `lines` cells, if its
    /// width and height can be held and so can a surface of that size.
    pub fn of_grid(columns: usize, lines: usize) -> (size: Option<Size>)
        ensures
            size == if columns * CELL_WIDTH <= usize::MAX && lines * CELL_HEIGHT <= usize::MAX
                && surface_fits(columns * CELL_WIDTH, lines * CELL_HEIGHT) {
                Some(
                    Size {
                        width: (columns * CELL_WIDTH) as usize,
                        height: (lines * CELL_HEIGHT) as usize,
                    },
                )
            } else {
                None::<Size>
            },
    {
        if columns > usize::MAX / CELL_WIDTH || lines > usize::MAX / CELL_HEIGHT {
            return None;
        }
        let size = Size { width: columns * CELL_WIDTH, height: lines * CELL_HEIGHT };
        if size.fits() {
            Some(size)
        } else {
            None
        }
    }
}

/// The rectangle of pixels that belongs to a cell.
pub open spec fn cell_rect(cell: RenderableCell) -> Rect {
    Rect {
        x0: cell.column * CELL_WIDTH,
        y0: cell.line * CELL_HEIGHT,
        x1: cell.column * CELL_WIDTH + CELL_WIDTH,
        y1: cell.line * CELL_HEIGHT + CELL_HEIGHT,
    }
}

/// The sample that a cell's rectangle is filled with: fully transparent where
/// the background's opacity is 0, else the background colour with the opacity
/// as its alpha channel.
pub open spec fn cell_sample(cell: RenderableCell) -> u32 {
    if cell.bg_alpha == 0 {
        TRANSPARENT
    } else {
        argb(cell.bg_alpha, cell.bg.r, cell.bg.g, cell.bg.b)
    }
}

/// Whether two cells have the same background colour and opacity.
pub open spec fn same_background(a: RenderableCell, b: RenderableCell) -> bool {
    a.bg == b.bg && a.bg_alpha == b.bg_alpha
}

} // verus!
