//! Policy extraction and the frame/jank analyzers.
//!
//! Per telemetry record the looper derives normalized metrics from a
//! buffer's raw history (`PolicyData::extract`) and then runs two
//! independent classifications against the mode-resolved thresholds:
//! the windowed, accumulator-based frame analyzer producing a
//! [`NormalEvent`], and the immediate threshold check on the long-run
//! average producing a [`JankEvent`].  Both mutate the same buffer: a
//! jank of any severity cancels the frame analyzer's pending
//! accumulation.

use vstd::prelude::*;

use crate::buffer::Buffer;
use crate::buffer::BufferModel;
use crate::config::Config;
use crate::config::Mode;
use crate::config::PolicyConfig;
use crate::config::spec_mode_config;
use crate::FRAME_WINDOW;
use crate::NANOS_PER_SEC;

verus! {

/// Windowed policy outcome of the frame analyzer.  Severity order is
/// `Restrictable < NoEvent < Release`; see [`NormalEvent::severity`].
#[derive(Debug, PartialEq, Eq, Structural, Ord, PartialOrd, Copy, Clone)]
pub enum NormalEvent {
    Restrictable,
    NoEvent,
    Release,
}

/// Single-evaluation severity of the long-run average overrun.
/// Severity order is `NoEvent < Jank < BigJank`; see [`JankEvent::severity`].
#[derive(Debug, PartialEq, Eq, Structural, Ord, PartialOrd, Copy, Clone)]
pub enum JankEvent {
    NoEvent,
    Jank,
    BigJank,
}

impl NormalEvent {
    /// Explicit numeric severity rank, independent of declaration order.
    pub open spec fn spec_severity(self) -> u32 {
        match self {
            NormalEvent::Restrictable => 0u32,
            NormalEvent::NoEvent => 1u32,
            NormalEvent::Release => 2u32,
        }
    }

    pub fn severity(&self) -> (r: u32)
        ensures
            r == self.spec_severity(),
    {
        match self {
            NormalEvent::Restrictable => 0,
            NormalEvent::NoEvent => 1,
            NormalEvent::Release => 2,
        }
    }
}

impl JankEvent {
    /// Explicit numeric severity rank, independent of declaration order.
    pub open spec fn spec_severity(self) -> u32 {
        match self {
            JankEvent::NoEvent => 0u32,
            JankEvent::Jank => 1u32,
            JankEvent::BigJank => 2u32,
        }
    }

    pub fn severity(&self) -> (r: u32)
        ensures
            r == self.spec_severity(),
    {
        match self {
            JankEvent::NoEvent => 0,
            JankEvent::Jank => 1,
            JankEvent::BigJank => 2,
        }
    }
}

/// Normalized frame metrics of one buffer, in parts per billion of the
/// frame budget implied by `target_fps`: a value of `NANOS_PER_SEC`
/// means the budget was exactly met.
#[derive(Debug, Clone, Copy)]
pub struct PolicyData {
    pub target_fps: u32,
    pub normalized_frame: u128,
    pub normalized_avg_frame: u128,
}

/// Sum of a sequence of frame durations.
pub open spec fn sum_ns(s: Seq<u64>) -> int
    decreases s.len(),
{
    if s.len() == 0 {
        0
    } else {
        sum_ns(s.drop_last()) + s.last()
    }
}

/// The short window: up to the `FRAME_WINDOW` most recent samples.
pub open spec fn spec_window(h: Seq<u64>) -> Seq<u64> {
    if h.len() > FRAME_WINDOW {
        h.take(FRAME_WINDOW as int)
    } else {
        h
    }
}

/// Arithmetic mean of the short window (integer division).
pub open spec fn spec_window_mean(h: Seq<u64>) -> int {
    sum_ns(spec_window(h)) / (spec_window(h).len() as int)
}

/// What extraction yields on a buffer: nothing while the target rate is
/// unknown (the buffer is inert), otherwise the window mean and the
/// long-run average, each scaled by the target rate.
pub open spec fn spec_extract(b: BufferModel) -> Option<PolicyData> {
    match b.target_fps {
        Option::None => Option::None,
        Option::Some(fps) => Option::Some(
            PolicyData {
                target_fps: fps,
                normalized_frame: (spec_window_mean(b.frametimes) * fps) as u128,
                normalized_avg_frame: (b.avg_time * fps) as u128,
            },
        ),
    }
}

proof fn lemma_sum_le_max(s: Seq<u64>)
    ensures
        0 <= sum_ns(s) <= s.len() * u64::MAX,
    decreases s.len(),
{
    if s.len() == 0 {
    } else {
        lemma_sum_le_max(s.drop_last());
        assert((s.len() - 1) * u64::MAX + u64::MAX == s.len() * u64::MAX) by (nonlinear_arith);
    }
}

/// Extraction never produces a normalized value beyond what one `u64`
/// sample times a `u32` rate can reach.
pub proof fn lemma_extract_bounds(b: BufferModel)
    requires
        b.wf(),
    ensures
        match spec_extract(b) {
            Option::Some(d) => {
                &&& d.normalized_frame <= (u64::MAX as u128) * (u32::MAX as u128)
                &&& d.normalized_avg_frame <= (u64::MAX as u128) * (u32::MAX as u128)
            },
            Option::None => true,
        },
{
    if b.target_fps is Some {
        let fps = b.target_fps->0;
        let w = spec_window(b.frametimes);
        lemma_sum_le_max(w);
        let n = w.len() as int;
        let m = spec_window_mean(b.frametimes);
        assert(0 <= m <= u64::MAX) by (nonlinear_arith)
            requires
                n >= 1,
                0 <= sum_ns(w) <= n * u64::MAX,
                m == sum_ns(w) / n,
        ;
        assert(m * fps <= u64::MAX * u32::MAX) by (nonlinear_arith)
            requires
                0 <= m <= u64::MAX,
                0 <= fps <= u32::MAX,
        ;
        assert(b.avg_time * fps <= u64::MAX * u32::MAX) by (nonlinear_arith)
            requires
                0 <= b.avg_time <= u64::MAX,
                0 <= fps <= u32::MAX,
        ;
    }
}

impl PolicyData {
    /// Compute the normalized metrics of a buffer, or nothing while its
    /// target rate is unknown.
    pub fn extract(buffer: &Buffer) -> (r: Option<PolicyData>)
        requires
            buffer.wf(),
        ensures
            r == spec_extract(buffer@),
    {
        let fps: u32 = match buffer.target_fps {
            Option::Some(f) => f,
            Option::None => {
                return Option::None;
            },
        };
        let n: usize = if buffer.frametimes.len() > FRAME_WINDOW {
            FRAME_WINDOW
        } else {
            buffer.frametimes.len()
        };
        let ghost w = spec_window(buffer.frametimes@);
        proof {
            assert(w =~= buffer.frametimes@.take(n as int));
            assert(w.take(0) =~= Seq::<u64>::empty());
        }
        let mut sum: u128 = 0;
        let mut i: usize = 0;
        while i < n
            invariant
                i <= n,
                n <= buffer.frametimes@.len(),
                w == spec_window(buffer.frametimes@),
                w =~= buffer.frametimes@.take(n as int),
                sum == sum_ns(w.take(i as int)),
                sum <= i * u64::MAX,
            decreases n - i,
        {
            proof {
                assert(w.take(i as int + 1).drop_last() =~= w.take(i as int));
                assert(w.take(i as int + 1).last() == buffer.frametimes@[i as int]);
                assert((i as int) * u64::MAX + u64::MAX == (i as int + 1) * u64::MAX)
                    by (nonlinear_arith);
            }
            sum = sum + buffer.frametimes[i] as u128;
            i += 1;
        }
        proof {
            assert(w.take(n as int) =~= w);
            lemma_sum_le_max(w);
            assert(sum / (n as u128) <= u64::MAX) by (nonlinear_arith)
                requires
                    n >= 1,
                    0 <= sum <= (n as int) * u64::MAX,
            ;
        }
        let mean: u128 = sum / (n as u128);
        proof {
            assert(mean * fps <= u64::MAX * u32::MAX) by (nonlinear_arith)
                requires
                    0 <= mean <= u64::MAX,
                    0 <= fps <= u32::MAX,
            ;
            assert(buffer.avg_time * fps <= u64::MAX * u32::MAX) by (nonlinear_arith)
                requires
                    0 <= buffer.avg_time <= u64::MAX,
                    0 <= fps <= u32::MAX,
            ;
        }
        let normalized_frame: u128 = mean * (fps as u128);
        let normalized_avg_frame: u128 = (buffer.avg_time as u128) * (fps as u128);
        Option::Some(
            PolicyData { target_fps: fps, normalized_frame, normalized_avg_frame },
        )
    }
}

/// Signed addition clamped to the `i128` range; the accumulator can
/// never leave the representable range, however long a window runs.
pub open spec fn sat_add(a: int, b: int) -> int {
    if a + b > i128::MAX {
        i128::MAX as int
    } else if a + b < i128::MIN {
        i128::MIN as int
    } else {
        a + b
    }
}

fn saturating_add_i128(a: i128, b: i128) -> (r: i128)
    ensures
        r as int == sat_add(a as int, b as int),
{
    if b >= 0 {
        if a > i128::MAX - b {
            i128::MAX
        } else {
            a + b
        }
    } else {
        if a < i128::MIN - b {
            i128::MIN
        } else {
            a + b
        }
    }
}

/// Nanoseconds since the accumulation window started.
pub open spec fn spec_elapsed(timer: u64, now: u64) -> int {
    if now >= timer {
        now - timer
    } else {
        0
    }
}

/// The window gate: the frame analyzer may only decide once at least
/// `acc_dur` frame intervals of the surface's target rate have elapsed.
pub open spec fn window_open(b: BufferModel, c: PolicyConfig, fps: u32, now: u64) -> bool {
    spec_elapsed(b.acc_timer, now) * fps >= c.acc_dur * NANOS_PER_SEC
}

/// One step of the frame analyzer: bank the signed overrun of this
/// record into the accumulator; if the window gate is still closed,
/// report nothing; otherwise decide — `Release` exactly when the banked
/// overrun reached `scale` — and restart the window with an empty
/// accumulator.
pub open spec fn spec_frame_analyze(
    b: BufferModel,
    c: PolicyConfig,
    d: PolicyData,
    now: u64,
) -> (BufferModel, NormalEvent) {
    let acc = sat_add(b.acc_frame, d.normalized_frame - NANOS_PER_SEC);
    if !window_open(b, c, d.target_fps, now) {
        (BufferModel { acc_frame: acc, ..b }, NormalEvent::NoEvent)
    } else if acc >= c.scale {
        (BufferModel { acc_frame: 0, acc_timer: now, ..b }, NormalEvent::Release)
    } else {
        (BufferModel { acc_frame: 0, acc_timer: now, ..b }, NormalEvent::Restrictable)
    }
}

/// One step of the jank analyzer: classify the long-run average's
/// overrun against the two scales; any jank cancels the frame
/// analyzer's pending accumulation.
pub open spec fn spec_jank_analyze(
    b: BufferModel,
    c: PolicyConfig,
    d: PolicyData,
) -> (BufferModel, JankEvent) {
    let diff = d.normalized_avg_frame - NANOS_PER_SEC;
    if diff >= c.big_jank_scale {
        (BufferModel { acc_frame: 0, ..b }, JankEvent::BigJank)
    } else if diff >= c.jank_scale {
        (BufferModel { acc_frame: 0, ..b }, JankEvent::Jank)
    } else {
        (b, JankEvent::NoEvent)
    }
}

/// The frame analyzer applied to a buffer: no event while the buffer is
/// inert, else one [`spec_frame_analyze`] step.
pub open spec fn spec_normal_event(
    b: BufferModel,
    c: PolicyConfig,
    now: u64,
) -> (BufferModel, NormalEvent) {
    match spec_extract(b) {
        Option::None => (b, NormalEvent::NoEvent),
        Option::Some(d) => spec_frame_analyze(b, c, d, now),
    }
}

/// The jank analyzer applied to a buffer: no event while the buffer is
/// inert, else one [`spec_jank_analyze`] step.
pub open spec fn spec_jank_event(
    b: BufferModel,
    c: PolicyConfig,
    now: u64,
) -> (BufferModel, JankEvent) {
    match spec_extract(b) {
        Option::None => (b, JankEvent::NoEvent),
        Option::Some(d) => spec_jank_analyze(b, c, d),
    }
}

impl Buffer {
    /// Run the frame analyzer against mode-resolved thresholds.
    pub fn normal_event(&mut self, config: &Config, mode: Mode, now: u64) -> (r: NormalEvent)
        requires
            old(self).wf(),
        ensures
            final(self)@ == spec_normal_event(old(self)@, spec_mode_config(*config, mode), now).0,
            r == spec_normal_event(old(self)@, spec_mode_config(*config, mode), now).1,
            final(self).wf(),
    {
        let config = PolicyConfig::new(config, mode, self);
        let policy_data = match PolicyData::extract(self) {
            Option::Some(d) => d,
            Option::None => {
                return NormalEvent::NoEvent;
            },
        };
        proof {
            lemma_extract_bounds(self@);
        }
        self.frame_analyze(config, policy_data, now)
    }

    /// Run the jank analyzer against mode-resolved thresholds.
    pub fn jank_event(&mut self, config: &Config, mode: Mode, now: u64) -> (r: JankEvent)
        requires
            old(self).wf(),
        ensures
            final(self)@ == spec_jank_event(old(self)@, spec_mode_config(*config, mode), now).0,
            r == spec_jank_event(old(self)@, spec_mode_config(*config, mode), now).1,
            final(self).wf(),
    {
        let config = PolicyConfig::new(config, mode, self);
        let policy_data = match PolicyData::extract(self) {
            Option::Some(d) => d,
            Option::None => {
                return JankEvent::NoEvent;
            },
        };
        proof {
            lemma_extract_bounds(self@);
        }
        self.jank_analyze(config, policy_data)
    }

    /// The accumulator/window state machine behind [`Buffer::normal_event`].
    pub fn frame_analyze(
        &mut self,
        config: PolicyConfig,
        policy_data: PolicyData,
        now: u64,
    ) -> (r: NormalEvent)
        requires
            old(self).wf(),
            policy_data.normalized_frame <= (u64::MAX as u128) * (u32::MAX as u128),
        ensures
            final(self)@ == spec_frame_analyze(old(self)@, config, policy_data, now).0,
            r == spec_frame_analyze(old(self)@, config, policy_data, now).1,
            final(self).wf(),
    {
        let diff: i128 = policy_data.normalized_frame as i128 - NANOS_PER_SEC as i128;
        self.acc_frame = saturating_add_i128(self.acc_frame, diff);

        let elapsed: u64 = if now >= self.acc_timer {
            now - self.acc_timer
        } else {
            0
        };
        proof {
            assert((elapsed as int) * (policy_data.target_fps as int)
                <= u64::MAX * u32::MAX) by (nonlinear_arith)
                requires
                    0 <= elapsed <= u64::MAX,
                    0 <= policy_data.target_fps <= u32::MAX,
            ;
            assert((config.acc_dur as int) * (NANOS_PER_SEC as int)
                <= u32::MAX * NANOS_PER_SEC) by (nonlinear_arith)
                requires
                    0 <= config.acc_dur <= u32::MAX,
            ;
        }
        if (elapsed as u128) * (policy_data.target_fps as u128)
            < (config.acc_dur as u128) * (NANOS_PER_SEC as u128) {
            return NormalEvent::NoEvent;
        }

        let result = if self.acc_frame >= config.scale as i128 {
            NormalEvent::Release
        } else {
            NormalEvent::Restrictable
        };

        self.acc_frame = 0;
        self.acc_timer = now;

        result
    }

    /// The threshold classification behind [`Buffer::jank_event`].
    pub fn jank_analyze(&mut self, config: PolicyConfig, policy_data: PolicyData) -> (r: JankEvent)
        requires
            old(self).wf(),
            policy_data.normalized_avg_frame <= (u64::MAX as u128) * (u32::MAX as u128),
        ensures
            final(self)@ == spec_jank_analyze(old(self)@, config, policy_data).0,
            r == spec_jank_analyze(old(self)@, config, policy_data).1,
            final(self).wf(),
    {
        let diff: i128 = policy_data.normalized_avg_frame as i128 - NANOS_PER_SEC as i128;

        if diff >= config.big_jank_scale as i128 {
            self.acc_frame = 0;
            JankEvent::BigJank
        } else if diff >= config.jank_scale as i128 {
            self.acc_frame = 0;
            JankEvent::Jank
        } else {
            JankEvent::NoEvent
        }
    }
}

} // verus!

