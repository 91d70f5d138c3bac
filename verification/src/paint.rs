//! Which cells of a snapshot are painted, and what the surface holds after
//! they were.

use vstd::prelude::*;
use crate::color::pack_argb;
use crate::color::TRANSPARENT;
use crate::grid::cell_rect;
use crate::grid::cell_sample;
use crate::grid::same_background;
use crate::grid::RenderableCell;
use crate::grid::CELL_HEIGHT;
use crate::grid::CELL_WIDTH;
use crate::surface::lemma_fill_at;
use crate::surface::lemma_pixel_coords;
use crate::surface::PixelSurface;
use crate::surface::Raster;

verus! {

/// Whether cell `i` of `cells` is painted: always when `force` is set,
/// otherwise unless the frame before has a cell at `i` with the same
/// background.
pub open spec fn is_painted(
    previous: Seq<RenderableCell>,
    cells: Seq<RenderableCell>,
    force: bool,
    i: int,
) -> bool {
    force || i >= previous.len() || !same_background(previous[i], cells[i])
}

/// The raster after the first `n` cells were gone through in order, each one
/// that is painted filling its rectangle.
pub open spec fn paint_cells(
    base: Raster,
    previous: Seq<RenderableCell>,
    cells: Seq<RenderableCell>,
    force: bool,
    n: nat,
) -> Raster
    decreases n,
{
    if n == 0 {
        base
    } else {
        let earlier = paint_cells(base, previous, cells, force, (n - 1) as nat);
        if is_painted(previous, cells, force, n - 1) {
            earlier.fill(cell_rect(cells[n - 1]), cell_sample(cells[n - 1]))
        } else {
            earlier
        }
    }
}

/// How many of the first `n` cells are painted.
pub open spec fn painted_count(
    previous: Seq<RenderableCell>,
    cells: Seq<RenderableCell>,
    force: bool,
    n: nat,
) -> nat
    decreases n,
{
    if n == 0 {
        0
    } else {
        painted_count(previous, cells, force, (n - 1) as nat) + if is_painted(
            previous,
            cells,
            force,
            n - 1,
        ) {
            1nat
        } else {
            0nat
        }
    }
}

/// The last of the first `n` cells that is painted and whose rectangle holds
/// the pixel `(x, y)`, if there is one.
pub open spec fn last_painter(
    previous: Seq<RenderableCell>,
    cells: Seq<RenderableCell>,
    force: bool,
    n: nat,
    x: int,
    y: int,
) -> Option<int>
    decreases n,
{
    if n == 0 {
        None
    } else if is_painted(previous, cells, force, n - 1) && cell_rect(cells[n - 1]).contains(x, y) {
        Some(n - 1)
    } else {
        last_painter(previous, cells, force, (n - 1) as nat, x, y)
    }
}

/// Painting keeps the size of the raster, and one sample for each pixel.
pub proof fn lemma_paint_keeps_size(
    base: Raster,
    previous: Seq<RenderableCell>,
    cells: Seq<RenderableCell>,
    force: bool,
    n: nat,
)
    ensures
        paint_cells(base, previous, cells, force, n).width == base.width,
        paint_cells(base, previous, cells, force, n).height == base.height,
        paint_cells(base, previous, cells, force, n).samples.len() == base.samples.len(),
    decreases n,
{
    if n > 0 {
        lemma_paint_keeps_size(base, previous, cells, force, (n - 1) as nat);
    }
}

/// After painting, a pixel shows the sample of the last painted cell whose
/// rectangle holds it; a pixel that no painted cell holds is as it was.
pub proof fn lemma_pixel_after_paint(
    base: Raster,
    previous: Seq<RenderableCell>,
    cells: Seq<RenderableCell>,
    force: bool,
    n: nat,
    x: int,
    y: int,
)
    requires
        base.wf(),
        base.contains(x, y),
    ensures
        paint_cells(base, previous, cells, force, n).at(x, y) == match last_painter(
            previous,
            cells,
            force,
            n,
            x,
            y,
        ) {
            Some(j) => cell_sample(cells[j]),
            None => base.at(x, y),
        },
    decreases n,
{
    if n > 0 {
        let earlier = paint_cells(base, previous, cells, force, (n - 1) as nat);
        lemma_pixel_after_paint(base, previous, cells, force, (n - 1) as nat, x, y);
        lemma_paint_keeps_size(base, previous, cells, force, (n - 1) as nat);
        lemma_fill_at(earlier, cell_rect(cells[n - 1]), cell_sample(cells[n - 1]), x, y);
    }
}

/// The last painter of a pixel is one of the cells gone through, is painted,
/// holds the pixel, and no painted cell after it does.
pub proof fn lemma_last_painter(
    previous: Seq<RenderableCell>,
    cells: Seq<RenderableCell>,
    force: bool,
    n: nat,
    x: int,
    y: int,
)
    ensures
        match last_painter(previous, cells, force, n, x, y) {
            Some(j) => {
                &&& 0 <= j < n
                &&& is_painted(previous, cells, force, j)
                &&& cell_rect(cells[j]).contains(x, y)
                &&& forall|i: int|
                    j < i < n && is_painted(previous, cells, force, i) ==> !cell_rect(
                        #[trigger] cells[i],
                    ).contains(x, y)
            },
            None => forall|i: int|
                0 <= i < n && is_painted(previous, cells, force, i) ==> !cell_rect(
                    #[trigger] cells[i],
                ).contains(x, y),
        },
    decreases n,
{
    if n > 0 {
        lemma_last_painter(previous, cells, force, (n - 1) as nat, x, y);
    }
}

/// Where none of the first `n` cells is painted, the raster stays as it is.
pub proof fn lemma_nothing_painted(
    base: Raster,
    previous: Seq<RenderableCell>,
    cells: Seq<RenderableCell>,
    force: bool,
    n: nat,
)
    requires
        forall|i: int| 0 <= i < n ==> !is_painted(previous, cells, force, i),
    ensures
        paint_cells(base, previous, cells, force, n) == base,
        painted_count(previous, cells, force, n) == 0,
    decreases n,
{
    if n > 0 {
        lemma_nothing_painted(base, previous, cells, force, (n - 1) as nat);
    }
}

/// Where the count of painted cells is 0, none of the first `n` cells is
/// painted, and the raster stays as it is.
pub proof fn lemma_none_counted(
    base: Raster,
    previous: Seq<RenderableCell>,
    cells: Seq<RenderableCell>,
    force: bool,
    n: nat,
)
    requires
        painted_count(previous, cells, force, n) == 0,
    ensures
        forall|i: int| 0 <= i < n ==> !is_painted(previous, cells, force, i),
        paint_cells(base, previous, cells, force, n) == base,
    decreases n,
{
    if n > 0 {
        lemma_none_counted(base, previous, cells, force, (n - 1) as nat);
    }
}

/// Where painting is forced, each of the first `n` cells is painted, and the
/// raster is the one that painting without a frame before gives.
pub proof fn lemma_forced_paints_all(
    base: Raster,
    previous: Seq<RenderableCell>,
    cells: Seq<RenderableCell>,
    n: nat,
)
    ensures
        painted_count(previous, cells, true, n) == n,
        paint_cells(base, previous, cells, true, n) == paint_cells(
            base,
            Seq::empty(),
            cells,
            false,
            n,
        ),
    decreases n,
{
    if n > 0 {
        lemma_forced_paints_all(base, previous, cells, (n - 1) as nat);
    }
}

/// Tells whether two cells have the same background colour and opacity.
pub fn has_same_background(a: &RenderableCell, b: &RenderableCell) -> (same: bool)
    ensures
        same == same_background(*a, *b),
{
    a.bg.r == b.bg.r && a.bg.g == b.bg.g && a.bg.b == b.bg.b && a.bg_alpha == b.bg_alpha
}

/// Fills the rectangle of `cell` on `surface` with the cell's sample.
pub fn paint_cell(surface: &mut PixelSurface, cell: &RenderableCell)
    requires
        old(surface).wf(),
    ensures
        final(surface).wf(),
        final(surface)@ == old(surface)@.fill(cell_rect(*cell), cell_sample(*cell)),
{
    let sample: u32 = if cell.bg_alpha == 0 {
        TRANSPARENT
    } else {
        pack_argb(cell.bg_alpha, cell.bg.r, cell.bg.g, cell.bg.b)
    };
    let width: usize = surface.width();
    let height: usize = surface.height();
    if width == 0 || height == 0 || cell.column > (width - 1) / CELL_WIDTH || cell.line > (height
        - 1) / CELL_HEIGHT {
        proof {
            let raster = surface@;
            let filled = raster.fill(cell_rect(*cell), sample);
            assert forall|k: int| 0 <= k < raster.samples.len() implies filled.samples[k]
                == raster.samples[k] by {
                lemma_pixel_coords(raster.width as int, raster.height as int, k);
            }
            assert(filled.samples =~= raster.samples);
        }
        return ;
    }
    // The corner lies on the surface, whose samples can be counted: the
    // opposite corner cannot overflow.
    assert(width <= width * height && height <= width * height) by (nonlinear_arith)
        requires
            width >= 1,
            height >= 1,
    ;
    let x0: usize = cell.column * CELL_WIDTH;
    let y0: usize = cell.line * CELL_HEIGHT;
    surface.fill_rect(x0, y0, x0 + CELL_WIDTH, y0 + CELL_HEIGHT, sample);
}

} // verus!
