//! The decisions of the loop that shows a grid frame after frame. The loop
//! itself belongs to the host: on each frame it asks `on_frame` what to do.

use crate::grid::Grid;
use crate::universe::Universe;
use vstd::prelude::*;

verus! {

/// What the host does after a frame.
#[derive(Clone, Copy, Debug, PartialEq, Eq, Structural)]
pub enum FrameAction {
    /// The grid has moved on by one generation: draw it and ask for the
    /// next frame.
    Redraw,
    /// The run is over: draw nothing, ask for no frame, and let go of what
    /// the loop holds.
    Stop,
}

/// A run as a value.
pub struct Run {
    pub grid: Grid,
    pub ticks: nat,
    pub max_ticks: nat,
    pub cancelled: bool,
}

impl Run {
    /// The run is over: it was cancelled, or it has made all its generations.
    pub open spec fn finished(self) -> bool {
        self.cancelled || self.ticks >= self.max_ticks
    }

    /// The run one generation later.
    pub open spec fn advance(self) -> Run {
        Run {
            grid: self.grid.step(),
            ticks: self.ticks + 1,
            max_ticks: self.max_ticks,
            cancelled: self.cancelled,
        }
    }
}

/// A grid together with the count of the generations it has made and the
/// most it is to make.
pub struct Driver {
    universe: Universe,
    ticks: u64,
    max_ticks: u64,
    cancelled: bool,
}

impl View for Driver {
    type V = Run;

    closed spec fn view(&self) -> Run {
        Run {
            grid: self.universe@,
            ticks: self.ticks as nat,
            max_ticks: self.max_ticks as nat,
            cancelled: self.cancelled,
        }
    }
}

impl Driver {
    /// A run of `universe` that has made no generation yet and makes at most
    /// `max_ticks`.
    pub fn new(universe: Universe, max_ticks: u64) -> (driver: Driver)
        ensures
            driver@ == (Run {
                grid: universe@,
                ticks: 0,
                max_ticks: max_ticks as nat,
                cancelled: false,
            }),
    {
        Driver { universe, ticks: 0, max_ticks, cancelled: false }
    }

    /// The grid as it is now.
    pub fn universe(&self) -> (universe: &Universe)
        ensures
            universe@ == self@.grid,
    {
        &self.universe
    }

    /// The number of generations made so far.
    pub fn ticks(&self) -> (ticks: u64)
        ensures
            ticks == self@.ticks,
    {
        self.ticks
    }

    /// Ends the run: from now on every frame is told to stop.
    pub fn cancel(&mut self)
        ensures
            final(self)@ == (Run { cancelled: true, ..old(self)@ }),
    {
        self.cancelled = true;
    }

    /// One frame. A run that is over stays as it is and the host is told to
    /// stop; otherwise the grid moves on by one generation and the host is
    /// told to draw it.
    pub fn on_frame(&mut self) -> (action: FrameAction)
        ensures
            old(self)@.finished() ==> action == FrameAction::Stop && final(self)@ == old(self)@,
            !old(self)@.finished() ==> action == FrameAction::Redraw && final(self)@ == old(
                self,
            )@.advance(),
    {
        if self.cancelled || self.ticks >= self.max_ticks {
            return FrameAction::Stop;
        }
        self.ticks = self.ticks + 1;
        self.universe.tick();
        FrameAction::Redraw
    }
}

} // verus!
