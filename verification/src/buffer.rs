//! Per-surface telemetry state.
//!
//! A `Buffer` holds everything the policy engine knows about one
//! rendering surface: the latest resolved target frame rate, a bounded
//! most-recent-first history of frame durations, a smoothed long-run
//! average, and the frame analyzer's accumulator and window timer.

use vstd::prelude::*;

use crate::AVG_SMOOTH;
use crate::FRAME_HISTORY_CAP;

verus! {

/// Mathematical model of a [`Buffer`].
pub ghost struct BufferModel {
    pub target_fps: Option<u32>,
    pub frametimes: Seq<u64>,
    pub avg_time: u64,
    pub acc_frame: int,
    pub acc_timer: u64,
}

/// Per-surface state, exclusively owned and mutated by the consumer of
/// the message channel.
///
/// `frametimes` is ordered most-recent-first and never empty: a buffer
/// only exists once its first telemetry record arrived.  `acc_frame` is
/// the signed accumulator of normalized overrun/underrun (parts per
/// billion) since the window started at `acc_timer`; it may go negative,
/// banking credit for fast frames.
pub struct Buffer {
    pub target_fps: Option<u32>,
    pub frametimes: Vec<u64>,
    pub avg_time: u64,
    pub acc_frame: i128,
    pub acc_timer: u64,
}

impl View for Buffer {
    type V = BufferModel;

    open spec fn view(&self) -> BufferModel {
        BufferModel {
            target_fps: self.target_fps,
            frametimes: self.frametimes@,
            avg_time: self.avg_time,
            acc_frame: self.acc_frame as int,
            acc_timer: self.acc_timer,
        }
    }
}

impl BufferModel {
    /// The history holds at least the newest sample and at most the
    /// retention capacity.
    pub open spec fn wf(self) -> bool {
        1 <= self.frametimes.len() <= FRAME_HISTORY_CAP
    }

    /// State of a buffer freshly created from its first telemetry record.
    pub open spec fn fresh(target_fps: Option<u32>, frametime: u64, now: u64) -> BufferModel {
        BufferModel {
            target_fps: target_fps,
            frametimes: seq![frametime],
            avg_time: frametime,
            acc_frame: 0,
            acc_timer: now,
        }
    }

    /// State after recording one more telemetry sample: the target rate
    /// is overwritten with the latest resolution, the sample is
    /// prepended to the bounded history, and the long-run average is
    /// smoothed toward the sample.  Accumulator and window timer are
    /// untouched; only analysis moves them.
    pub open spec fn pushed(self, target_fps: Option<u32>, frametime: u64) -> BufferModel {
        BufferModel {
            target_fps: target_fps,
            frametimes: push_history(self.frametimes, frametime),
            avg_time: smooth_avg(self.avg_time, frametime),
            acc_frame: self.acc_frame,
            acc_timer: self.acc_timer,
        }
    }
}

/// Prepend a sample to a most-recent-first history, discarding beyond
/// the retention capacity.
pub open spec fn push_history(h: Seq<u64>, frametime: u64) -> Seq<u64> {
    let grown = h.insert(0, frametime);
    if grown.len() > FRAME_HISTORY_CAP {
        grown.take(FRAME_HISTORY_CAP as int)
    } else {
        grown
    }
}

/// Exponential smoothing of the long-run average frame time.
pub open spec fn smooth_avg(avg: u64, frametime: u64) -> u64 {
    ((avg * (AVG_SMOOTH - 1) + frametime) / (AVG_SMOOTH as int)) as u64
}

impl Buffer {
    pub open spec fn wf(&self) -> bool {
        self@.wf()
    }

    /// Create the buffer for a surface's first telemetry record.
    pub fn new(target_fps: Option<u32>, frametime: u64, now: u64) -> (b: Buffer)
        ensures
            b@ == BufferModel::fresh(target_fps, frametime, now),
            b.wf(),
    {
        let mut frametimes: Vec<u64> = Vec::new();
        frametimes.push(frametime);
        let b = Buffer {
            target_fps,
            frametimes,
            avg_time: frametime,
            acc_frame: 0,
            acc_timer: now,
        };
        proof {
            assert(b@.frametimes =~= seq![frametime]);
            assert(b@ =~= BufferModel::fresh(target_fps, frametime, now));
        }
        b
    }

    /// Record one telemetry sample: overwrite the target rate, prepend
    /// the frame duration to the bounded history, smooth the long-run
    /// average.
    pub fn push_frametime(&mut self, target_fps: Option<u32>, frametime: u64)
        requires
            old(self).wf(),
        ensures
            final(self)@ == old(self)@.pushed(target_fps, frametime),
            final(self).wf(),
    {
        self.target_fps = target_fps;
        self.frametimes.insert(0, frametime);
        if self.frametimes.len() > FRAME_HISTORY_CAP {
            self.frametimes.truncate(FRAME_HISTORY_CAP);
        }
        let w: u64 = AVG_SMOOTH - 1;
        let smoothed: u128 = (self.avg_time as u128 * w as u128 + frametime as u128)
            / AVG_SMOOTH as u128;
        proof {
            let a = self.avg_time as int;
            let f = frametime as int;
            assert((a * 9 + f) / 10 <= if a >= f { a } else { f }) by (nonlinear_arith)
                requires
                    0 <= a,
                    0 <= f,
            ;
        }
        self.avg_time = smoothed as u64;
        proof {
            assert(self@ =~= old(self)@.pushed(target_fps, frametime));
        }
    }
}

} // verus!
