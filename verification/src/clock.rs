//! Frame timing.
//!
//! The clock is fed a monotonically increasing timestamp once per frame
//! and derives the frame delta and the accumulators behind the average
//! frame rate.  A previous timestamp of zero is the sentinel for "no
//! previous frame yet", so the first step after a reset yields a zero
//! delta and does not count a frame.

use crate::fixed::{fx_add, fx_sub, spec_fx_add, spec_fx_sub};
use vstd::prelude::*;

verus! {

/// The previous timestamp, the accumulated elapsed time and the number
/// of completed frames since the last reset, all in micro-units of a
/// second where scaled.
#[derive(Clone, Copy, PartialEq, Eq, Structural, Debug)]
pub struct Clock {
    pub prev_time: i64,
    pub total_time: i64,
    pub total_frames: u32,
}

/// The clock after one step on the given timestamp, paired with the
/// frame delta the step yields.  The frame counter saturates rather
/// than wrap.
pub open spec fn spec_clock_advance(c: Clock, time: i64) -> (Clock, i64) {
    let dt = if c.prev_time > 0 {
        spec_fx_sub(time as int, c.prev_time as int) as i64
    } else {
        0i64
    };
    let frames = if c.prev_time > 0 {
        if c.total_frames < u32::MAX {
            (c.total_frames + 1) as u32
        } else {
            u32::MAX
        }
    } else {
        c.total_frames
    };
    (
        Clock {
            prev_time: time,
            total_time: spec_fx_add(c.total_time as int, dt as int) as i64,
            total_frames: frames,
        },
        dt,
    )
}

impl Clock {
    /// A clock with no previous frame and empty accumulators.
    pub fn new() -> (r: Clock)
        ensures
            r == (Clock { prev_time: 0i64, total_time: 0i64, total_frames: 0u32 }),
    {
        Clock { prev_time: 0, total_time: 0, total_frames: 0 }
    }

    /// Forget the previous frame and clear the accumulators.
    pub fn reset(&mut self)
        ensures
            *final (self) == (Clock { prev_time: 0i64, total_time: 0i64, total_frames: 0u32 }),
    {
        self.prev_time = 0;
        self.total_time = 0;
        self.total_frames = 0;
    }

    /// One step on the given timestamp: when a previous frame exists the
    /// delta is the elapsed time and a frame is counted, otherwise the
    /// delta is zero; either way the timestamp is remembered.
    pub fn advance(&mut self, time: i64) -> (dt: i64)
        ensures
            *final (self) == spec_clock_advance(*old(self), time).0,
            dt == spec_clock_advance(*old(self), time).1,
    {
        let mut dt: i64 = 0;
        if self.prev_time > 0 {
            dt = fx_sub(time, self.prev_time);
            if self.total_frames < u32::MAX {
                self.total_frames = self.total_frames + 1;
            }
        }
        self.total_time = fx_add(self.total_time, dt);
        self.prev_time = time;
        dt
    }
}

} // verus!
