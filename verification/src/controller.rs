//! The control-panel state: the simulation speed budget, the grid-overlay
//! switch, and the rolling window of frame timestamps that feeds the
//! frames-per-second display.

use vstd::prelude::*;

verus! {

/// One second, in the milliseconds of the frame clock: entries older than
/// this leave the frames-per-second window.
pub const WINDOW_MS: u64 = 1000;

/// Timestamps in a frame window never decrease.
pub open spec fn sorted(s: Seq<u64>) -> bool {
    forall|i: int, j: int| 0 <= i <= j < s.len() ==> s[i] <= s[j]
}

/// The control-panel state. The speed is the desired simulation steps per
/// second, bounded by the monitor's refresh rate; zero means no stepping.
pub struct Controller {
    /// Desired simulation steps per second.
    pub speed: u32,
    /// Upper bound for `speed`: the monitor's refresh rate.
    pub max_speed: u32,
    /// Whether the grid overlay is drawn.
    pub grid: bool,
    /// Frame timestamps (milliseconds) of the last second, oldest first;
    /// its length is the displayed frames-per-second count.
    pub fps_counter: Vec<u64>,
}

impl Controller {
    /// Well-formedness: the speed within its bound and the window in time
    /// order.
    pub open spec fn wf(&self) -> bool {
        &&& self.speed <= self.max_speed
        &&& sorted(self.fps_counter@)
    }

    /// A controller bounded by the given refresh rate, starting at sixty
    /// steps per second (or the bound, where the monitor is slower), with
    /// the grid overlay off and an empty frame window.
    pub fn new(max_speed: u32) -> (c: Controller)
        ensures
            c.wf(),
            c.max_speed == max_speed,
            c.speed == if 60 <= max_speed {
                60u32
            } else {
                max_speed
            },
            !c.grid,
            c.fps_counter@.len() == 0,
    {
        let speed = if 60 <= max_speed {
            60
        } else {
            max_speed
        };
        Controller { speed, max_speed, grid: false, fps_counter: Vec::new() }
    }

    /// A controller bounded by what a monitor reports: its refresh rate in
    /// millihertz where it gives one, sixty hertz otherwise.
    pub fn from_monitor(refresh_millihertz: Option<u32>) -> (c: Controller)
        ensures
            c.wf(),
            c.max_speed == (match refresh_millihertz {
                Some(mhz) => mhz / 1000,
                None => 60u32,
            }),
            !c.grid,
            c.fps_counter@.len() == 0,
    {
        let max_speed = match refresh_millihertz {
            Some(mhz) => mhz / 1000,
            None => 60,
        };
        Controller::new(max_speed)
    }

    /// Returns the speed of the simulation.
    pub fn speed(&self) -> (s: u32)
        ensures
            s == self.speed,
    {
        self.speed
    }

    /// Returns whether the grid should be drawn.
    pub fn grid(&self) -> (g: bool)
        ensures
            g == self.grid,
    {
        self.grid
    }

    /// Sets the speed, clamped to the monitor bound, as the panel's slider
    /// does.
    pub fn set_speed(&mut self, value: u32)
        requires
            old(self).wf(),
        ensures
            final(self).wf(),
            final(self).speed == if value <= old(self).max_speed {
                value
            } else {
                old(self).max_speed
            },
            final(self).max_speed == old(self).max_speed,
            final(self).grid == old(self).grid,
            final(self).fps_counter@ == old(self).fps_counter@,
    {
        self.speed = if value <= self.max_speed {
            value
        } else {
            self.max_speed
        };
    }

    /// Switches the grid overlay.
    pub fn set_grid(&mut self, value: bool)
        requires
            old(self).wf(),
        ensures
            final(self).wf(),
            final(self).grid == value,
            final(self).speed == old(self).speed,
            final(self).max_speed == old(self).max_speed,
            final(self).fps_counter@ == old(self).fps_counter@,
    {
        self.grid = value;
    }

    /// The displayed frames-per-second count: the number of frames in the
    /// window.
    pub fn fps(&self) -> (n: usize)
        ensures
            n == self.fps_counter@.len(),
    {
        self.fps_counter.len()
    }

    /// Records a frame at `now` and discards entries a second or older: the
    /// window keeps exactly the frames of the last second, in order, ending
    /// with this one. The frame clock never runs backwards.
    pub fn record_frame(&mut self, now: u64)
        requires
            old(self).wf(),
            forall|i: int| 0 <= i < old(self).fps_counter@.len() ==> old(self).fps_counter@[i] <= now,
        ensures
            final(self).wf(),
            final(self).speed == old(self).speed,
            final(self).max_speed == old(self).max_speed,
            final(self).grid == old(self).grid,
            exists|k: int| window_trimmed(old(self).fps_counter@, final(self).fps_counter@, now, k),
            forall|i: int|
                0 <= i < final(self).fps_counter@.len() ==> now - final(self).fps_counter@[i]
                    < WINDOW_MS,
            final(self).fps_counter@.len() >= 1,
    {
        let n = self.fps_counter.len();
        let mut k: usize = 0;
        while k < n && now - self.fps_counter[k] >= WINDOW_MS
            invariant
                old(self).wf(),
                *self == *old(self),
                n == self.fps_counter@.len(),
                0 <= k <= n,
                forall|i: int| 0 <= i < self.fps_counter@.len() ==> self.fps_counter@[i] <= now,
                forall|i: int| 0 <= i < k ==> now - self.fps_counter@[i] >= WINDOW_MS,
            decreases n - k,
        {
            k += 1;
        }
        let ghost cut = k as int;
        assert forall|i: int| cut <= i < n implies now - old(self).fps_counter@[i] < WINDOW_MS by {
            assert(old(self).fps_counter@[cut] <= old(self).fps_counter@[i]);
        }
        let mut fresh: Vec<u64> = Vec::new();
        let mut i: usize = k;
        while i < n
            invariant
                old(self).wf(),
                *self == *old(self),
                n == self.fps_counter@.len(),
                cut <= i <= n,
                0 <= cut <= n,
                fresh@ == self.fps_counter@.subrange(cut, i as int),
            decreases n - i,
        {
            let v = self.fps_counter[i];
            fresh.push(v);
            assert(fresh@ =~= self.fps_counter@.subrange(cut, i + 1));
            i += 1;
        }
        assert(fresh@ =~= self.fps_counter@.skip(cut));
        fresh.push(now);
        self.fps_counter = fresh;
        assert(self.fps_counter@ =~= old(self).fps_counter@.skip(cut).push(now));
        assert(window_trimmed(old(self).fps_counter@, self.fps_counter@, now, cut));
        assert forall|i: int|
            0 <= i < self.fps_counter@.len() implies now - self.fps_counter@[i] < WINDOW_MS by {
            if i < self.fps_counter@.len() - 1 {
                assert(self.fps_counter@[i] == old(self).fps_counter@[cut + i]);
            }
        }
        assert(sorted(self.fps_counter@)) by {
            assert forall|a: int, b: int|
                0 <= a <= b < self.fps_counter@.len() implies self.fps_counter@[a]
                <= self.fps_counter@[b] by {
                if b < self.fps_counter@.len() - 1 {
                    assert(self.fps_counter@[a] == old(self).fps_counter@[cut + a]);
                    assert(self.fps_counter@[b] == old(self).fps_counter@[cut + b]);
                } else if a < self.fps_counter@.len() - 1 {
                    assert(self.fps_counter@[a] == old(self).fps_counter@[cut + a]);
                    assert(old(self).fps_counter@[cut + a] <= now);
                }
            }
        }
    }
}

/// The frame window after a frame at `now`: the `k` stale entries (a second
/// or older) dropped from the front, the fresh ones kept in order, and `now`
/// appended.
pub open spec fn window_trimmed(before: Seq<u64>, after: Seq<u64>, now: u64, k: int) -> bool {
    &&& 0 <= k <= before.len()
    &&& after == before.skip(k).push(now)
    &&& (forall|i: int| 0 <= i < k ==> now - before[i] >= WINDOW_MS)
    &&& (forall|i: int| k <= i < before.len() ==> now - before[i] < WINDOW_MS)
}

} // verus!
