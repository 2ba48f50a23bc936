//! The fixed-timestep accumulator: real time is collected per display
//! callback and drained in uniform simulation steps, so the simulation
//! rate is independent of the display rate.

use vstd::prelude::*;

verus! {

/// Length of one simulation step, in microseconds (one sixtieth of a
/// second).
pub const FRAME_DURATION_MICROS: u64 = 16667;

/// The loop's timing state: when the last callback ran and how much
/// real time is still waiting to be simulated.
#[derive(Clone, Copy, PartialEq, Eq, Structural, Debug)]
pub struct GameLoop {
    pub last_frame: u64,
    pub accumulated_delta: u64,
}

impl GameLoop {
    /// A loop that starts counting from `now_micros`.
    pub fn new(now_micros: u64) -> (r: Self)
        ensures
            r.last_frame == now_micros,
            r.accumulated_delta == 0,
    {
        GameLoop { last_frame: now_micros, accumulated_delta: 0 }
    }

    /// Account for the time since the previous callback and say how
    /// many whole simulation steps it covers.  What the steps do not
    /// cover stays in the accumulator, so no real time is ever lost or
    /// invented: the steps and the remainder always add up to the time
    /// handed in.
    pub fn advance(&mut self, now_micros: u64) -> (steps: u64)
        requires
            old(self).last_frame <= now_micros,
            old(self).accumulated_delta + (now_micros - old(self).last_frame) <= u64::MAX,
        ensures
            final(self).last_frame == now_micros,
            final(self).accumulated_delta <= FRAME_DURATION_MICROS,
            steps * FRAME_DURATION_MICROS + final(self).accumulated_delta == old(
                self,
            ).accumulated_delta + (now_micros - old(self).last_frame),
            steps > 0 ==> final(self).accumulated_delta > 0,
    {
        let delta = now_micros - self.last_frame;
        self.accumulated_delta = self.accumulated_delta + delta;
        self.last_frame = now_micros;
        let mut steps: u64 = 0;
        while self.accumulated_delta > FRAME_DURATION_MICROS
            invariant
                steps * FRAME_DURATION_MICROS + self.accumulated_delta == old(
                    self,
                ).accumulated_delta + (now_micros - old(self).last_frame),
                self.last_frame == now_micros,
                steps > 0 ==> self.accumulated_delta > 0,
            decreases self.accumulated_delta,
        {
            self.accumulated_delta = self.accumulated_delta - FRAME_DURATION_MICROS;
            steps = steps + 1;
            proof {
                assert(steps * FRAME_DURATION_MICROS == (steps - 1) * FRAME_DURATION_MICROS
                    + FRAME_DURATION_MICROS) by (nonlinear_arith);
            }
        }
        steps
    }
}

} // verus!
