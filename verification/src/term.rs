//! The foreground's frame: how the wakeup channel, the capture of a snapshot
//! and the drawer act together.
//!
//! On each frame the channel is drained. Where a signal was in it, the
//! engine's grid is captured as it is at that moment, handed to the drawer
//! and drawn; where none was, nothing is done. The engine, on its own thread,
//! changes the grid and signals after each change.

use vstd::prelude::*;
use crate::drawer::Drawer;
use crate::drawer::DrawerState;
use crate::event::WakeupChannel;
use crate::grid::RenderableCell;
use crate::grid::Size;

verus! {

/// One tick of the foreground. Drains the channel; where a signal was in it,
/// calls `capture` for a snapshot and hands that to the drawer, and tells the
/// host to redraw. Where none was, `capture` is not called and the drawer is
/// left alone.
pub fn process<F: FnOnce() -> Vec<RenderableCell>>(
    channel: &mut WakeupChannel,
    drawer: &mut Drawer,
    capture: F,
) -> (redraw: bool)
    requires
        call_requires(capture, ()),
    ensures
        redraw == old(channel)@,
        !final(channel)@,
        old(drawer).wf() ==> final(drawer).wf(),
        !redraw ==> final(drawer)@ == old(drawer)@,
        redraw ==> exists|cells: Vec<RenderableCell>|
            call_ensures(capture, (), cells) && final(drawer)@ == old(drawer)@.updated(cells@),
{
    if !channel.drain() {
        return false;
    }
    let cells: Vec<RenderableCell> = capture();
    drawer.update(cells);
    true
}

/// One tick of the foreground while there is no drawer to hand a snapshot
/// to. Drains the channel; where a signal was in it, calls `capture` and lets
/// the snapshot go. Where none was, `capture` is not called.
pub fn process_without_drawer<F: FnOnce() -> Vec<RenderableCell>>(
    channel: &mut WakeupChannel,
    capture: F,
) -> (captured: bool)
    requires
        call_requires(capture, ()),
    ensures
        captured == old(channel)@,
        !final(channel)@,
{
    if !channel.drain() {
        return false;
    }
    let _cells: Vec<RenderableCell> = capture();
    true
}

/// A terminal session between two frames.
pub struct Session {
    /// The engine's grid: what a capture returns.
    pub grid: Seq<RenderableCell>,
    /// What the wakeup channel holds: whether a signal waits.
    pub pending: bool,
    /// What the drawer holds.
    pub drawer: DrawerState,
    /// How many snapshots were captured.
    pub captures: nat,
    /// How many snapshots were drawn.
    pub draws: nat,
}

impl Session {
    /// The session after the engine changed the grid to `grid` and signalled.
    pub open spec fn engine_wrote(self, grid: Seq<RenderableCell>) -> Session {
        Session {
            grid,
            pending: true,
            drawer: self.drawer,
            captures: self.captures,
            draws: self.draws,
        }
    }

    /// The session after the engine went through `grids`, one change after
    /// the other.
    pub open spec fn engine_wrote_all(self, grids: Seq<Seq<RenderableCell>>) -> Session
        decreases grids.len(),
    {
        if grids.len() == 0 {
            self
        } else {
            self.engine_wrote_all(grids.drop_last()).engine_wrote(grids.last())
        }
    }

    /// The session after one frame of the foreground: a tick whose capture
    /// returns the grid, and a draw into `viewport` where the tick asks for
    /// one.
    pub open spec fn frame(self, viewport: Size) -> Session {
        if self.pending {
            Session {
                grid: self.grid,
                pending: false,
                drawer: self.drawer.updated(self.grid).drawn(viewport),
                captures: self.captures + 1,
                draws: self.draws + 1,
            }
        } else {
            self
        }
    }
}

/// However many times the engine changed the grid before a frame, if it did
/// at all, that frame captures one snapshot and draws it once, and the surface
/// is then what a repaint of the last of those grids gives. The frame after
/// it, with no change in between, does nothing.
pub proof fn lemma_wakeups_coalesce(
    session: Session,
    grids: Seq<Seq<RenderableCell>>,
    viewport: Size,
)
    requires
        grids.len() >= 1,
    ensures
        session.engine_wrote_all(grids).pending,
        session.engine_wrote_all(grids).frame(viewport).captures == session.captures + 1,
        session.engine_wrote_all(grids).frame(viewport).draws == session.draws + 1,
        session.engine_wrote_all(grids).frame(viewport).drawer.raster
            == session.drawer.repainted(grids.last(), viewport).raster,
        session.engine_wrote_all(grids).frame(viewport).drawer.last_cells == grids.last(),
        session.engine_wrote_all(grids).frame(viewport).frame(viewport)
            == session.engine_wrote_all(grids).frame(viewport),
{
    lemma_writes_keep_drawer(session, grids.drop_last());
}

/// The engine's changes leave the drawer and the counts alone.
pub proof fn lemma_writes_keep_drawer(session: Session, grids: Seq<Seq<RenderableCell>>)
    ensures
        session.engine_wrote_all(grids).drawer == session.drawer,
        session.engine_wrote_all(grids).captures == session.captures,
        session.engine_wrote_all(grids).draws == session.draws,
        grids.len() >= 1 ==> session.engine_wrote_all(grids).grid == grids.last(),
        grids.len() >= 1 ==> session.engine_wrote_all(grids).pending,
        grids.len() == 0 ==> session.engine_wrote_all(grids) == session,
    decreases grids.len(),
{
    if grids.len() > 0 {
        lemma_writes_keep_drawer(session, grids.drop_last());
    }
}

/// Three changes before one frame: one capture, one draw, and the pixels of
/// the third grid.
pub proof fn lemma_three_wakeups(
    session: Session,
    first: Seq<RenderableCell>,
    second: Seq<RenderableCell>,
    third: Seq<RenderableCell>,
    viewport: Size,
)
    ensures
        session.engine_wrote(first).engine_wrote(second).engine_wrote(third).frame(
            viewport,
        ).captures == session.captures + 1,
        session.engine_wrote(first).engine_wrote(second).engine_wrote(third).frame(
            viewport,
        ).draws == session.draws + 1,
        session.engine_wrote(first).engine_wrote(second).engine_wrote(third).frame(
            viewport,
        ).drawer.raster == session.drawer.repainted(third, viewport).raster,
{
}

} // verus!
