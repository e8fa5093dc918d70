//! The per-frame decision machine of the driver loop: whether a frame steps
//! the simulation, whether it draws at all, and whether it toggles the cell
//! under the cursor. The loop around it performs the GPU work; every decision
//! is made here, from plain values.

use vstd::prelude::*;

verus! {

/// A simulation step is due exactly when the window is not minimized, the
/// speed budget is nonzero, and more than `1000 / speed` milliseconds have
/// passed since the last step. A zero speed means no stepping, never a
/// division.
pub open spec fn should_step(minimized: bool, speed: u32, now: u64, last_step: u64) -> bool {
    !minimized && speed > 0 && now - last_step > 1000int / (speed as int)
}

/// A frame draws exactly when the window is not minimized.
pub open spec fn should_draw(minimized: bool) -> bool {
    !minimized
}

/// What one frame does: step the simulation, draw the grid, toggle the cell
/// under the cursor.
pub struct FramePlan {
    pub step: bool,
    pub draw: bool,
    pub flip: bool,
}

/// The driver's own state between frames: whether the window is minimized
/// (a zero-area resize suspends stepping and drawing), whether a toggle was
/// requested since the last drawn frame, and when the last step ran.
pub struct Driver {
    pub minimized: bool,
    pub flip_queued: bool,
    pub last_step: u64,
}

impl Driver {
    /// A driver at startup: visible, nothing queued, the step clock at zero.
    pub fn new() -> (d: Driver)
        ensures
            !d.minimized,
            !d.flip_queued,
            d.last_step == 0,
    {
        Driver { minimized: false, flip_queued: false, last_step: 0 }
    }

    /// Notes a resize: a zero-area viewport suspends the frame work until a
    /// resize with both dimensions nonzero arrives.
    pub fn on_resize(&mut self, width: u32, height: u32)
        ensures
            final(self).minimized == (width == 0 || height == 0),
            final(self).flip_queued == old(self).flip_queued,
            final(self).last_step == old(self).last_step,
    {
        self.minimized = width == 0 || height == 0;
    }

    /// Notes a toggle request (the secondary pointer button): the next drawn
    /// frame flips the cell under the cursor.
    pub fn on_flip_request(&mut self)
        ensures
            final(self).minimized == old(self).minimized,
            final(self).flip_queued,
            final(self).last_step == old(self).last_step,
    {
        self.flip_queued = true;
    }

    /// Decides one frame at time `now` under the speed budget `speed`:
    /// minimized frames do nothing and keep the step clock and any queued
    /// toggle; otherwise the frame draws, steps when a step is due (and then
    /// restarts the step clock), and carries out a queued toggle.
    pub fn plan_frame(&mut self, now: u64, speed: u32) -> (p: FramePlan)
        requires
            old(self).last_step <= now,
        ensures
            final(self).minimized == old(self).minimized,
            p.draw == should_draw(old(self).minimized),
            p.step == should_step(old(self).minimized, speed, now, old(self).last_step),
            p.step ==> final(self).last_step == now,
            !p.step ==> final(self).last_step == old(self).last_step,
            p.flip == (!old(self).minimized && old(self).flip_queued),
            final(self).flip_queued == (old(self).flip_queued && old(self).minimized),
    {
        if self.minimized {
            FramePlan { step: false, draw: false, flip: false }
        } else {
            let step = speed > 0 && now - self.last_step > 1000 / (speed as u64);
            if step {
                self.last_step = now;
            }
            let flip = self.flip_queued;
            self.flip_queued = false;
            FramePlan { step, draw: true, flip }
        }
    }
}

/// Law: a zero speed budget never steps, whatever the elapsed time: repeated
/// frame advances at speed zero never invoke the step pipeline.
pub proof fn lemma_zero_speed_never_steps(minimized: bool, now: u64, last_step: u64)
    ensures
        !should_step(minimized, 0, now, last_step),
{
}

/// Law: while the viewport is minimized (a resize with a zero dimension),
/// frames neither step nor draw, whatever the speed and the clock.
pub proof fn lemma_minimized_skips_frame(speed: u32, now: u64, last_step: u64)
    ensures
        !should_step(true, speed, now, last_step),
        !should_draw(true),
{
}

} // verus!
