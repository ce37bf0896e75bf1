//! Laws of the scheduling core, proved over the same specification
//! functions the executable contracts are stated against.

use vstd::prelude::*;

use crate::buffer::BufferModel;
use crate::config::PolicyConfig;
use crate::looper::BufferKey;
use crate::looper::FasData;
use crate::looper::Message;
use crate::looper::spec_key;
use crate::looper::spec_process_data;
use crate::looper::spec_process_message;
use crate::looper::spec_run;
use crate::policy::JankEvent;
use crate::policy::NormalEvent;
use crate::policy::PolicyData;
use crate::policy::sat_add;
use crate::policy::spec_extract;
use crate::policy::spec_frame_analyze;
use crate::policy::spec_jank_analyze;
use crate::policy::spec_jank_event;
use crate::policy::spec_normal_event;
use crate::policy::spec_window;
use crate::policy::spec_window_mean;
use crate::policy::sum_ns;
use crate::policy::window_open;
use crate::NANOS_PER_SEC;

verus! {

/// Determinism: the store and the emitted event sequence after a run
/// are a function of the starting state, the resolved thresholds, and
/// the message sequence with its timestamps alone — equal sequences
/// give equal outcomes, however concurrently the producers ran before
/// enqueueing them.
pub proof fn lemma_run_deterministic(
    m1: Map<BufferKey, BufferModel>,
    m2: Map<BufferKey, BufferModel>,
    c1: PolicyConfig,
    c2: PolicyConfig,
    msgs1: Seq<(Message, u64)>,
    msgs2: Seq<(Message, u64)>,
)
    requires
        m1 == m2,
        c1 == c2,
        msgs1 == msgs2,
    ensures
        spec_run(m1, c1, msgs1) == spec_run(m2, c2, msgs2),
{
}

/// Idempotent removal: a removal notice for an unknown key changes no
/// state and emits nothing.
pub proof fn lemma_remove_unknown_is_noop(
    m: Map<BufferKey, BufferModel>,
    c: PolicyConfig,
    key: (i64, i32),
    now: u64,
)
    requires
        !m.dom().contains(BufferKey { buffer: key.0, pid: key.1 }),
    ensures
        spec_process_message(m, c, Message::RemoveBuffer(key), now).0 == m,
        spec_process_message(m, c, Message::RemoveBuffer(key), now).1 is None,
{
    assert(m.remove(BufferKey { buffer: key.0, pid: key.1 }) =~= m);
}

/// No state leakage: after a surface's entry was removed, a telemetry
/// record for that surface behaves identically to the same record
/// against any store that never tracked the surface — the same fresh
/// buffer is created and the same events are emitted.
pub proof fn lemma_no_state_leakage(
    m: Map<BufferKey, BufferModel>,
    never: Map<BufferKey, BufferModel>,
    c: PolicyConfig,
    d: FasData,
    now: u64,
)
    requires
        !never.dom().contains(spec_key(d)),
    ensures
        spec_process_data(m.remove(spec_key(d)), c, d, now).1
            == spec_process_data(never, c, d, now).1,
        spec_process_data(m.remove(spec_key(d)), c, d, now).0[spec_key(d)]
            == spec_process_data(never, c, d, now).0[spec_key(d)],
{
}

/// The frame analyzer's decision rule.  While the accumulation window
/// is still shorter than `acc_dur` frame intervals, the record's signed
/// overrun is banked and nothing is reported.  At a decision point the
/// banked overrun having reached `scale` yields `Release`, anything
/// less yields `Restrictable`, and either way the accumulator resets to
/// zero and the window restarts.
pub proof fn lemma_frame_decision(b: BufferModel, c: PolicyConfig, d: PolicyData, now: u64)
    ensures
        ({
            let banked = sat_add(b.acc_frame, d.normalized_frame - NANOS_PER_SEC);
            let (b2, ev) = spec_frame_analyze(b, c, d, now);
            &&& !window_open(b, c, d.target_fps, now) ==> {
                &&& ev == NormalEvent::NoEvent
                &&& b2 == BufferModel { acc_frame: banked, ..b }
            }
            &&& window_open(b, c, d.target_fps, now) ==> {
                &&& (ev == NormalEvent::Release <==> banked >= c.scale)
                &&& (ev == NormalEvent::Restrictable <==> banked < c.scale)
                &&& b2 == BufferModel { acc_frame: 0, acc_timer: now, ..b }
            }
        }),
{
}

/// The jank analyzer's decision rule: the long-run average's overrun
/// against the two scales decides the severity, and any jank cancels
/// the frame analyzer's pending accumulation.
pub proof fn lemma_jank_decision(b: BufferModel, c: PolicyConfig, d: PolicyData)
    requires
        c.wf(),
    ensures
        ({
            let diff = d.normalized_avg_frame - NANOS_PER_SEC;
            let (b2, ev) = spec_jank_analyze(b, c, d);
            &&& diff >= c.big_jank_scale ==> ev == JankEvent::BigJank
            &&& c.jank_scale <= diff < c.big_jank_scale ==> ev == JankEvent::Jank
            &&& diff < c.jank_scale ==> ev == JankEvent::NoEvent && b2 == b
            &&& ev != JankEvent::NoEvent ==> b2 == BufferModel { acc_frame: 0, ..b }
        }),
{
}

/// The accumulator after banking a run of normalized records, oldest
/// first.
pub open spec fn banked_after(acc0: int, norms: Seq<u128>) -> int
    decreases norms.len(),
{
    if norms.len() == 0 {
        acc0
    } else {
        banked_after(sat_add(acc0, norms[0] - NANOS_PER_SEC), norms.drop_first())
    }
}

/// The normalized frame of each record of a run.
pub open spec fn norms_of(ds: Seq<(PolicyData, u64)>) -> Seq<u128> {
    ds.map_values(|p: (PolicyData, u64)| p.0.normalized_frame)
}

/// The frame analyzer over a run of records, oldest first.
pub open spec fn spec_frame_run(
    b: BufferModel,
    c: PolicyConfig,
    ds: Seq<(PolicyData, u64)>,
) -> (BufferModel, Seq<NormalEvent>)
    decreases ds.len(),
{
    if ds.len() == 0 {
        (b, Seq::empty())
    } else {
        let (b1, ev) = spec_frame_analyze(b, c, ds[0].0, ds[0].1);
        let (b2, evs) = spec_frame_run(b1, c, ds.drop_first());
        (b2, seq![ev] + evs)
    }
}

/// Cumulative release: over a run in which every record but the last
/// arrives before `acc_dur` frame intervals have elapsed and the last
/// arrives at or past that point, nothing is reported until the last
/// record, and that decision is `Release` exactly when the banked
/// overrun of the whole run has reached `scale` — anything summing to
/// less is `Restrictable`.  Either way the accumulator resets to zero
/// and the window restarts at the decision's timestamp.
pub proof fn lemma_cumulative_release(b: BufferModel, c: PolicyConfig, ds: Seq<(PolicyData, u64)>)
    requires
        ds.len() >= 1,
        forall|i: int|
            0 <= i < ds.len() - 1
                ==> !window_open(b, c, (#[trigger] ds[i]).0.target_fps, ds[i].1),
        window_open(b, c, ds.last().0.target_fps, ds.last().1),
    ensures
        ({
            let banked = banked_after(b.acc_frame, norms_of(ds));
            let (b2, evs) = spec_frame_run(b, c, ds);
            &&& evs.len() == ds.len()
            &&& forall|i: int|
                0 <= i < ds.len() - 1 ==> (#[trigger] evs[i]) == NormalEvent::NoEvent
            &&& (evs.last() == NormalEvent::Release <==> banked >= c.scale)
            &&& (evs.last() == NormalEvent::Restrictable <==> banked < c.scale)
            &&& b2.acc_frame == 0
            &&& b2.acc_timer == ds.last().1
        }),
    decreases ds.len(),
{
    let norms = norms_of(ds);
    let (b1, ev0) = spec_frame_analyze(b, c, ds[0].0, ds[0].1);
    if ds.len() == 1 {
        assert(norms.len() == 1);
        assert(norms[0] == ds[0].0.normalized_frame);
        let acc1 = sat_add(b.acc_frame, norms[0] - NANOS_PER_SEC);
        assert(banked_after(acc1, norms.drop_first()) == acc1);
        assert(banked_after(b.acc_frame, norms) == acc1);
        assert(ds.drop_first().len() == 0);
        assert(spec_frame_run(b1, c, ds.drop_first()) == (b1, Seq::<NormalEvent>::empty()));
        let evs = spec_frame_run(b, c, ds).1;
        assert(evs =~= seq![ev0]);
        assert(evs.last() == ev0);
        assert(spec_frame_run(b, c, ds).0 == b1);
    } else {
        assert(!window_open(b, c, ds[0].0.target_fps, ds[0].1));
        assert(ev0 == NormalEvent::NoEvent);
        assert(b1.acc_timer == b.acc_timer);
        let rest = ds.drop_first();
        assert forall|i: int| 0 <= i < rest.len() - 1
            implies !window_open(b1, c, (#[trigger] rest[i]).0.target_fps, rest[i].1) by {
            assert(rest[i] == ds[i + 1]);
        }
        assert(rest.last() == ds.last());
        lemma_cumulative_release(b1, c, rest);
        assert(norms.drop_first() =~= norms_of(rest));
        assert(banked_after(b.acc_frame, norms)
            == banked_after(b1.acc_frame, norms.drop_first()));
        let evs = spec_frame_run(b, c, ds).1;
        let evs1 = spec_frame_run(b1, c, rest).1;
        assert(evs == seq![ev0] + evs1);
        assert(evs.last() == evs1.last());
        assert forall|i: int| 0 <= i < ds.len() - 1
            implies (#[trigger] evs[i]) == NormalEvent::NoEvent by {
            if i > 0 {
                assert(evs[i] == evs1[i - 1]);
            }
        }
    }
}

/// Inert buffer: while the target rate is unknown, neither analyzer
/// emits anything and neither changes the buffer.
pub proof fn lemma_inert_buffer(b: BufferModel, c: PolicyConfig, now: u64)
    requires
        b.target_fps is None,
    ensures
        spec_normal_event(b, c, now) == (b, NormalEvent::NoEvent),
        spec_jank_event(b, c, now) == (b, JankEvent::NoEvent),
{
}

/// A buffer is in steady state for a rate when its accumulator holds no
/// debt and every remembered duration — raw history and smoothed
/// average — is within the frame budget.
pub open spec fn steady_state(b: BufferModel, fps: u32) -> bool {
    &&& b.target_fps == Some(fps)
    &&& b.acc_frame <= 0
    &&& forall|i: int|
        0 <= i < b.frametimes.len() ==> (#[trigger] b.frametimes[i]) * fps <= NANOS_PER_SEC
    &&& b.avg_time * fps <= NANOS_PER_SEC
}

proof fn lemma_sum_budget(w: Seq<u64>, fps: u32)
    requires
        forall|i: int| 0 <= i < w.len() ==> (#[trigger] w[i]) * fps <= NANOS_PER_SEC,
    ensures
        sum_ns(w) * fps <= w.len() * NANOS_PER_SEC,
        sum_ns(w) >= 0,
    decreases w.len(),
{
    if w.len() == 0 {
        assert(sum_ns(w) * fps == 0) by (nonlinear_arith)
            requires
                sum_ns(w) == 0,
        ;
    } else {
        let t = w.drop_last();
        lemma_sum_budget(t, fps);
        assert(sum_ns(w) == sum_ns(t) + w.last());
        assert(sum_ns(w) * fps <= w.len() * NANOS_PER_SEC) by (nonlinear_arith)
            requires
                sum_ns(w) == sum_ns(t) + w.last(),
                sum_ns(t) * fps <= t.len() * NANOS_PER_SEC,
                w.last() * fps <= NANOS_PER_SEC,
                t.len() == w.len() - 1,
                w.len() >= 1,
                sum_ns(t) >= 0,
                w.last() >= 0,
                fps >= 0,
        ;
    }
}

proof fn lemma_mean_budget(h: Seq<u64>, fps: u32)
    requires
        h.len() >= 1,
        fps >= 1,
        forall|i: int| 0 <= i < h.len() ==> (#[trigger] h[i]) * fps <= NANOS_PER_SEC,
    ensures
        spec_window_mean(h) * fps <= NANOS_PER_SEC,
        spec_window_mean(h) >= 0,
{
    let w = spec_window(h);
    assert(forall|i: int| 0 <= i < w.len() ==> (#[trigger] w[i]) * fps <= NANOS_PER_SEC);
    lemma_sum_budget(w, fps);
    let n = w.len() as int;
    let m = spec_window_mean(h);
    assert(m * fps <= NANOS_PER_SEC && m >= 0) by (nonlinear_arith)
        requires
            n >= 1,
            fps >= 1,
            m == sum_ns(w) / n,
            sum_ns(w) >= 0,
            sum_ns(w) * fps <= n * NANOS_PER_SEC,
    ;
}

/// Steady-state no-jank, one telemetry turn: a buffer in steady state
/// that records one more frame within budget emits neither `Release`
/// nor any jank, and is again in steady state — so by induction a
/// sustained on-budget sequence never fires either analyzer.
pub proof fn lemma_steady_state_step(
    b: BufferModel,
    c: PolicyConfig,
    fps: u32,
    frametime: u64,
    now: u64,
)
    requires
        b.wf(),
        steady_state(b, fps),
        fps >= 1,
        frametime * fps <= NANOS_PER_SEC,
        c.wf(),
        c.scale > 0,
        c.jank_scale > 0,
    ensures
        ({
            let b0 = b.pushed(Some(fps), frametime);
            let (b1, normal) = spec_normal_event(b0, c, now);
            let (b2, jank) = spec_jank_event(b1, c, now);
            &&& normal != NormalEvent::Release
            &&& jank == JankEvent::NoEvent
            &&& steady_state(b2, fps)
            &&& b2.wf()
        }),
{
    let b0 = b.pushed(Some(fps), frametime);
    assert forall|i: int| 0 <= i < b0.frametimes.len()
        implies (#[trigger] b0.frametimes[i]) * fps <= NANOS_PER_SEC by {
        let h = b.frametimes.insert(0, frametime);
        assert(b0.frametimes[i] == h[i]);
        if i > 0 {
            assert(h[i] == b.frametimes[i - 1]);
        }
    }
    assert(b0.avg_time * fps <= NANOS_PER_SEC) by (nonlinear_arith)
        requires
            b0.avg_time == (b.avg_time * 9 + frametime) / 10,
            b.avg_time * fps <= NANOS_PER_SEC,
            frametime * fps <= NANOS_PER_SEC,
            b.avg_time >= 0,
            frametime >= 0,
            fps >= 1,
    ;
    lemma_mean_budget(b0.frametimes, fps);
    let d = spec_extract(b0)->0;
    assert(d.normalized_frame <= NANOS_PER_SEC);
    assert(d.normalized_avg_frame <= NANOS_PER_SEC);
    let banked = sat_add(b0.acc_frame, d.normalized_frame - NANOS_PER_SEC);
    assert(banked <= 0);
    assert(d.normalized_avg_frame - NANOS_PER_SEC < c.jank_scale);
}

/// One telemetry turn against a single tracked buffer: record the
/// sample, then both analyzers, exactly as the looper composes them.
pub open spec fn spec_buffer_telemetry(
    b: BufferModel,
    c: PolicyConfig,
    target_fps: Option<u32>,
    frametime: u64,
    now: u64,
) -> (BufferModel, NormalEvent, JankEvent) {
    let b0 = b.pushed(target_fps, frametime);
    let (b1, normal) = spec_normal_event(b0, c, now);
    let (b2, jank) = spec_jank_event(b1, c, now);
    (b2, normal, jank)
}

/// A whole run of telemetry turns against one buffer; each frame is a
/// `(duration, timestamp)` pair, oldest first.
pub open spec fn spec_buffer_run(
    b: BufferModel,
    c: PolicyConfig,
    fps: u32,
    frames: Seq<(u64, u64)>,
) -> (BufferModel, Seq<(NormalEvent, JankEvent)>)
    decreases frames.len(),
{
    if frames.len() == 0 {
        (b, Seq::empty())
    } else {
        let (b1, normal, jank) = spec_buffer_telemetry(b, c, Some(fps), frames[0].0, frames[0].1);
        let (b2, evs) = spec_buffer_run(b1, c, fps, frames.drop_first());
        (b2, seq![(normal, jank)] + evs)
    }
}

/// Steady-state no-jank, whole runs: a buffer in steady state fed any
/// sustained sequence of frames within budget never emits `Release` and
/// never emits any jank, at any timestamps, and ends in steady state.
pub proof fn lemma_steady_state_run(
    b: BufferModel,
    c: PolicyConfig,
    fps: u32,
    frames: Seq<(u64, u64)>,
)
    requires
        b.wf(),
        steady_state(b, fps),
        fps >= 1,
        c.wf(),
        c.scale > 0,
        c.jank_scale > 0,
        forall|i: int| 0 <= i < frames.len() ==> (#[trigger] frames[i]).0 * fps <= NANOS_PER_SEC,
    ensures
        ({
            let (b2, evs) = spec_buffer_run(b, c, fps, frames);
            &&& steady_state(b2, fps)
            &&& b2.wf()
            &&& forall|i: int| 0 <= i < evs.len()
                ==> (#[trigger] evs[i]).0 != NormalEvent::Release
                    && evs[i].1 == JankEvent::NoEvent
        }),
    decreases frames.len(),
{
    if frames.len() > 0 {
        lemma_steady_state_step(b, c, fps, frames[0].0, frames[0].1);
        let b1 = spec_buffer_telemetry(b, c, Some(fps), frames[0].0, frames[0].1).0;
        lemma_steady_state_run(b1, c, fps, frames.drop_first());
    }
}

/// Steady-state no-jank at the store level: one telemetry record within
/// budget for a surface whose buffer is in steady state emits neither
/// `Release` nor any jank, and leaves that buffer in steady state.
pub proof fn lemma_steady_state_process_data(
    m: Map<BufferKey, BufferModel>,
    c: PolicyConfig,
    d: FasData,
    fps: u32,
    now: u64,
)
    requires
        m.dom().contains(spec_key(d)),
        m[spec_key(d)].wf(),
        steady_state(m[spec_key(d)], fps),
        d.target_fps == Some(fps),
        fps >= 1,
        d.frametime * fps <= NANOS_PER_SEC,
        c.wf(),
        c.scale > 0,
        c.jank_scale > 0,
    ensures
        ({
            let (m2, out) = spec_process_data(m, c, d, now);
            &&& out.normal != NormalEvent::Release
            &&& out.jank == JankEvent::NoEvent
            &&& steady_state(m2[spec_key(d)], fps)
            &&& m2[spec_key(d)].wf()
        }),
{
    lemma_steady_state_step(m[spec_key(d)], c, fps, d.frametime, now);
}

} // verus!
