//! The drawer: it keeps the cells of the frame before and a pixel surface, and
//! on each new snapshot repaints the cells whose background changed.

use vstd::prelude::*;
use crate::color::TRANSPARENT;
use crate::grid::cell_rect;
use crate::grid::cell_sample;
use crate::grid::RenderableCell;
use crate::grid::Size;
use crate::paint::has_same_background;
use crate::paint::is_painted;
use crate::paint::last_painter;
use crate::paint::lemma_forced_paints_all;
use crate::paint::lemma_last_painter;
use crate::paint::lemma_none_counted;
use crate::paint::lemma_nothing_painted;
use crate::paint::lemma_paint_keeps_size;
use crate::paint::lemma_pixel_after_paint;
use crate::paint::paint_cell;
use crate::paint::paint_cells;
use crate::paint::painted_count;
use crate::surface::lemma_pixel_index;
use crate::surface::PixelSurface;
use crate::surface::Raster;

verus! {

/// Width and height of the surface that a new drawer starts with.
pub const INITIAL_EXTENT: usize = 500;

/// What a drawer holds.
pub struct DrawerState {
    /// Whether a snapshot waits to be drawn.
    pub dirty: bool,
    /// The snapshot that waits.
    pub cells: Seq<RenderableCell>,
    /// The snapshot that was drawn last.
    pub last_cells: Seq<RenderableCell>,
    /// The surface; its size is the viewport's when it was last drawn.
    pub raster: Raster,
}

impl DrawerState {
    /// Whether drawing into `viewport` finds the size changed.
    pub open spec fn resized(self, viewport: Size) -> bool {
        viewport.width != self.raster.width || viewport.height != self.raster.height
    }

    /// The state after `cells` were repainted into `viewport`. A changed size
    /// gives a new, fully transparent surface on which every cell is painted.
    pub open spec fn repainted(self, cells: Seq<RenderableCell>, viewport: Size) -> DrawerState {
        let resized = self.resized(viewport);
        let base = if resized {
            Raster::blank(viewport.width as nat, viewport.height as nat)
        } else {
            self.raster
        };
        DrawerState {
            dirty: self.dirty,
            cells: self.cells,
            last_cells: cells,
            raster: paint_cells(base, self.last_cells, cells, resized, cells.len()),
        }
    }

    /// The state after a snapshot was handed in.
    pub open spec fn updated(self, cells: Seq<RenderableCell>) -> DrawerState {
        DrawerState { dirty: true, cells, last_cells: self.last_cells, raster: self.raster }
    }

    /// The state after the host asked to draw into `viewport`: nothing changes
    /// unless a snapshot waits; that one is repainted and waits no longer.
    pub open spec fn drawn(self, viewport: Size) -> DrawerState {
        if self.dirty {
            (DrawerState {
                dirty: false,
                cells: Seq::empty(),
                last_cells: self.last_cells,
                raster: self.raster,
            }).repainted(self.cells, viewport)
        } else {
            self
        }
    }
}

/// What the host uploads after a draw.
pub struct Frame {
    /// Width of the surface, in pixels.
    pub width: usize,
    /// Height of the surface, in pixels.
    pub height: usize,
    /// Whether the surface was made anew for a changed viewport.
    pub resized: bool,
    /// How many cells were painted.
    pub painted: usize,
    /// The surface, four bytes for each pixel: red, green, blue, alpha.
    pub rgba: Vec<u8>,
}

/// The drawer.
pub struct Drawer {
    dirty: bool,
    cells: Vec<RenderableCell>,
    last_cells: Vec<RenderableCell>,
    surface: PixelSurface,
}

impl View for Drawer {
    type V = DrawerState;

    closed spec fn view(&self) -> DrawerState {
        DrawerState {
            dirty: self.dirty,
            cells: self.cells@,
            last_cells: self.last_cells@,
            raster: self.surface@,
        }
    }
}

impl Drawer {
    /// The surface holds one sample for each pixel of the last viewport.
    pub closed spec fn wf(&self) -> bool {
        self.surface.wf()
    }

    /// A drawer with nothing to draw, no frame before, and a fully transparent
    /// surface of `INITIAL_EXTENT` pixels each way.
    pub fn new() -> (drawer: Drawer)
        ensures
            drawer.wf(),
            drawer@ == (DrawerState {
                dirty: false,
                cells: Seq::empty(),
                last_cells: Seq::empty(),
                raster: Raster::blank(INITIAL_EXTENT as nat, INITIAL_EXTENT as nat),
            }),
    {
        let drawer = Drawer {
            dirty: false,
            cells: Vec::new(),
            last_cells: Vec::new(),
            surface: PixelSurface::new(INITIAL_EXTENT, INITIAL_EXTENT),
        };
        assert(drawer@.cells =~= Seq::empty());
        assert(drawer@.last_cells =~= Seq::empty());
        drawer
    }

    /// Tells whether a snapshot waits to be drawn.
    pub fn is_dirty(&self) -> (dirty: bool)
        ensures
            dirty == self@.dirty,
    {
        self.dirty
    }

    /// The size of the viewport when the drawer last drew.
    pub fn last_size(&self) -> (size: Size)
        ensures
            size.width == self@.raster.width,
            size.height == self@.raster.height,
    {
        Size { width: self.surface.width(), height: self.surface.height() }
    }

    /// The pixel surface.
    pub fn surface(&self) -> (surface: &PixelSurface)
        ensures
            surface@ == self@.raster,
            self.wf() ==> surface.wf(),
    {
        &self.surface
    }

    /// The snapshot that was drawn last.
    pub fn last_cells(&self) -> (cells: &Vec<RenderableCell>)
        ensures
            cells@ == self@.last_cells,
    {
        &self.last_cells
    }

    /// Hands in a snapshot to be drawn at the next draw. One that still waits
    /// is replaced.
    pub fn update(&mut self, cells: Vec<RenderableCell>)
        ensures
            final(self)@ == old(self)@.updated(cells@),
            old(self).wf() ==> final(self).wf(),
    {
        self.cells = cells;
        self.dirty = true;
    }

    /// Repaints `cells` into a viewport of the given size and keeps them as
    /// the frame before. Returns how many cells were painted.
    ///
    /// Where the size differs from that of the last draw the surface is made
    /// anew, fully transparent, and every cell is painted. Otherwise a cell is
    /// passed over if the frame before has a cell at the same index with the
    /// same background colour and opacity.
    pub fn repaint(&mut self, cells: Vec<RenderableCell>, viewport: Size) -> (painted: usize)
        requires
            old(self).wf(),
            viewport.fits(),
        ensures
            final(self).wf(),
            final(self)@ == old(self)@.repainted(cells@, viewport),
            painted == painted_count(
                old(self)@.last_cells,
                cells@,
                old(self)@.resized(viewport),
                cells@.len(),
            ),
    {
        let resized: bool = viewport.width != self.surface.width() || viewport.height
            != self.surface.height();
        if resized {
            self.surface = PixelSurface::new(viewport.width, viewport.height);
        }
        let ghost base = self.surface@;
        let ghost previous = self.last_cells@;
        let count: usize = cells.len();
        let mut painted: usize = 0;
        let mut i: usize = 0;
        while i < count
            invariant
                i <= count,
                count == cells@.len(),
                painted <= i,
                self.surface.wf(),
                self.last_cells@ == previous,
                self.dirty == old(self).dirty,
                self.cells == old(self).cells,
                self.surface@ == paint_cells(base, previous, cells@, resized, i as nat),
                painted == painted_count(previous, cells@, resized, i as nat),
            decreases count - i,
        {
            let cell: RenderableCell = cells[i];
            let skip: bool = !resized && i < self.last_cells.len() && has_same_background(
                &self.last_cells[i],
                &cell,
            );
            if !skip {
                paint_cell(&mut self.surface, &cell);
                painted = painted + 1;
            }
            i = i + 1;
        }
        self.last_cells = cells;
        painted
    }

    /// Draws the snapshot that waits, if there is one, into a viewport of the
    /// given size, and returns the frame for the host to upload. Without a
    /// waiting snapshot nothing changes and nothing is returned.
    pub fn draw(&mut self, viewport: Size) -> (frame: Option<Frame>)
        requires
            old(self).wf(),
            viewport.fits(),
        ensures
            final(self).wf(),
            final(self)@ == old(self)@.drawn(viewport),
            frame.is_some() == old(self)@.dirty,
            frame matches Some(f) ==> {
                &&& f.width == viewport.width
                &&& f.height == viewport.height
                &&& f.resized == old(self)@.resized(viewport)
                &&& f.painted == painted_count(
                    old(self)@.last_cells,
                    old(self)@.cells,
                    old(self)@.resized(viewport),
                    old(self)@.cells.len(),
                )
                &&& f.rgba@ == final(self)@.raster.rgba()
            },
    {
        if !self.dirty {
            return None;
        }
        self.dirty = false;
        let resized: bool = viewport.width != self.surface.width() || viewport.height
            != self.surface.height();
        let mut cells: Vec<RenderableCell> = Vec::new();
        std::mem::swap(&mut cells, &mut self.cells);
        assert(self.cells@ =~= Seq::empty());
        let painted: usize = self.repaint(cells, viewport);
        let rgba: Vec<u8> = self.surface.to_rgba();
        Some(Frame { width: viewport.width, height: viewport.height, resized, painted, rgba })
    }
}

/// Repainting the same snapshot into the same viewport a second time paints
/// no cell and leaves every pixel as the first time left it.
pub proof fn lemma_repaint_twice(state: DrawerState, cells: Seq<RenderableCell>, viewport: Size)
    ensures
        painted_count(
            state.repainted(cells, viewport).last_cells,
            cells,
            state.repainted(cells, viewport).resized(viewport),
            cells.len(),
        ) == 0,
        state.repainted(cells, viewport).repainted(cells, viewport) == state.repainted(
            cells,
            viewport,
        ),
{
    let resized = state.resized(viewport);
    let base = if resized {
        Raster::blank(viewport.width as nat, viewport.height as nat)
    } else {
        state.raster
    };
    lemma_paint_keeps_size(base, state.last_cells, cells, resized, cells.len());
    let once = state.repainted(cells, viewport);
    lemma_nothing_painted(once.raster, cells, cells, false, cells.len());
}

/// A repaint into a viewport of the same size that paints no cell leaves
/// every pixel as it was.
pub proof fn lemma_unpainted_keeps_raster(
    state: DrawerState,
    cells: Seq<RenderableCell>,
    viewport: Size,
)
    requires
        !state.resized(viewport),
        painted_count(state.last_cells, cells, false, cells.len()) == 0,
    ensures
        state.repainted(cells, viewport).raster == state.raster,
{
    lemma_none_counted(state.raster, state.last_cells, cells, false, cells.len());
}

/// Where the viewport's size differs from that of the last draw, every cell
/// of the snapshot is painted, whatever the frame before held, and the surface
/// is what painting the snapshot on a fully transparent one gives.
pub proof fn lemma_resize_paints_all(
    state: DrawerState,
    cells: Seq<RenderableCell>,
    viewport: Size,
)
    requires
        state.resized(viewport),
    ensures
        forall|i: int|
            0 <= i < cells.len() ==> is_painted(
                state.last_cells,
                cells,
                state.resized(viewport),
                i,
            ),
        painted_count(state.last_cells, cells, state.resized(viewport), cells.len())
            == cells.len(),
        state.repainted(cells, viewport).raster == paint_cells(
            Raster::blank(viewport.width as nat, viewport.height as nat),
            Seq::empty(),
            cells,
            false,
            cells.len(),
        ),
{
    lemma_forced_paints_all(
        Raster::blank(viewport.width as nat, viewport.height as nat),
        state.last_cells,
        cells,
        cells.len(),
    );
}

/// After a repaint each pixel of the viewport shows the sample of the last
/// painted cell whose rectangle holds it. A pixel that no painted cell holds
/// is as the frame before left it, or fully transparent where the size
/// changed.
pub proof fn lemma_pixel_after_repaint(
    state: DrawerState,
    cells: Seq<RenderableCell>,
    viewport: Size,
    x: int,
    y: int,
)
    requires
        state.raster.wf(),
        0 <= x < viewport.width,
        0 <= y < viewport.height,
    ensures
        state.repainted(cells, viewport).raster.at(x, y) == match last_painter(
            state.last_cells,
            cells,
            state.resized(viewport),
            cells.len(),
            x,
            y,
        ) {
            Some(j) => cell_sample(cells[j]),
            None => if state.resized(viewport) {
                TRANSPARENT
            } else {
                state.raster.at(x, y)
            },
        },
{
    let resized = state.resized(viewport);
    let blank = Raster::blank(viewport.width as nat, viewport.height as nat);
    let base = if resized {
        blank
    } else {
        state.raster
    };
    if resized {
        lemma_pixel_index(viewport.width as int, viewport.height as int, x, y);
    }
    lemma_pixel_after_paint(base, state.last_cells, cells, resized, cells.len(), x, y);
}

/// A painted cell whose background is fully transparent clears its rectangle:
/// each of its pixels that no later painted cell holds is fully transparent
/// after the repaint, whatever was there before.
pub proof fn lemma_transparent_cell_clears(
    state: DrawerState,
    cells: Seq<RenderableCell>,
    viewport: Size,
    i: int,
    x: int,
    y: int,
)
    requires
        state.raster.wf(),
        0 <= i < cells.len(),
        cells[i].bg_alpha == 0,
        is_painted(state.last_cells, cells, state.resized(viewport), i),
        0 <= x < viewport.width,
        0 <= y < viewport.height,
        cell_rect(cells[i]).contains(x, y),
        forall|j: int|
            i < j < cells.len() && is_painted(state.last_cells, cells, state.resized(viewport), j)
                ==> !cell_rect(#[trigger] cells[j]).contains(x, y),
    ensures
        state.repainted(cells, viewport).raster.at(x, y) == TRANSPARENT,
{
    let resized = state.resized(viewport);
    lemma_pixel_after_repaint(state, cells, viewport, x, y);
    lemma_last_painter(state.last_cells, cells, resized, cells.len(), x, y);
    let last = last_painter(state.last_cells, cells, resized, cells.len(), x, y);
    assert(last is Some);
    let j = last->0;
    if j < i {
        assert(!cell_rect(cells[i]).contains(x, y));
    }
}

} // verus!
