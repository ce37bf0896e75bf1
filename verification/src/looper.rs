//! The scheduler looper's state and step function.
//!
//! The buffer store maps surface identity to per-surface state; it is
//! exclusively owned by the single consumer of the message channel.
//! `process_message` is one turn of that consumer: on telemetry it
//! upserts the store, drives both analyzers, and yields the event pair
//! for the actuator; on a removal notice it erases the entry and yields
//! nothing.  The blocking channel loop itself lives outside the
//! library; it feeds each dequeued message, with a monotonic timestamp,
//! into `process_message`.

use vstd::prelude::*;

use crate::buffer::Buffer;
use crate::buffer::BufferModel;
use crate::config::Config;
use crate::config::Mode;
use crate::config::PolicyConfig;
use crate::config::spec_mode_config;
use crate::config::spec_target_fps;
use crate::policy::JankEvent;
use crate::policy::NormalEvent;
use crate::policy::spec_jank_event;
use crate::policy::spec_normal_event;

verus! {

/// Identity of a tracked surface: the opaque surface handle plus the
/// owning process.
#[derive(Debug, Clone, Copy, PartialEq, Eq, Structural)]
pub struct BufferKey {
    pub buffer: i64,
    pub pid: i32,
}

/// One frame-telemetry record, produced at ingestion and consumed
/// exactly once by the looper.  `target_fps` is the rate resolved for
/// the package at ingestion time, absent if the package is untracked;
/// `frametime` is the frame's render duration in nanoseconds.
#[derive(Debug, Clone)]
pub struct FasData {
    pub buffer: i64,
    pub pid: i32,
    pub pkg: String,
    pub target_fps: Option<u32>,
    pub frametime: u64,
    pub cpu: i32,
}

/// A message of the ingestion-to-looper channel.
#[derive(Debug)]
pub enum Message {
    Data(FasData),
    RemoveBuffer((i64, i32)),
}

/// What the looper forwards to the actuator for one telemetry record:
/// both classifications, tagged with enough context to act on.
#[derive(Debug, Clone, Copy, PartialEq, Eq, Structural)]
pub struct EventOutput {
    pub buffer: i64,
    pub pid: i32,
    pub cpu: i32,
    pub normal: NormalEvent,
    pub jank: JankEvent,
}

/// The per-surface state store, owned by the looper alone.
pub struct BufferStore {
    entries: Vec<(BufferKey, Buffer)>,
}

/// The mapping a store represents.
pub open spec fn entries_map(s: Seq<(BufferKey, Buffer)>) -> Map<BufferKey, BufferModel>
    decreases s.len(),
{
    if s.len() == 0 {
        Map::empty()
    } else {
        entries_map(s.drop_last()).insert(s.last().0, s.last().1@)
    }
}

/// No surface identity occurs twice.
pub open spec fn unique_keys(s: Seq<(BufferKey, Buffer)>) -> bool {
    forall|i: int, j: int|
        0 <= i < j < s.len() ==> (#[trigger] s[i]).0 != (#[trigger] s[j]).0
}

impl View for BufferStore {
    type V = Map<BufferKey, BufferModel>;

    closed spec fn view(&self) -> Map<BufferKey, BufferModel> {
        entries_map(self.entries@)
    }
}

impl BufferStore {
    pub closed spec fn wf(&self) -> bool {
        &&& unique_keys(self.entries@)
        &&& forall|i: int|
            0 <= i < self.entries@.len() ==> (#[trigger] self.entries@[i]).1.wf()
    }
}

proof fn lemma_entries_map_dom(s: Seq<(BufferKey, Buffer)>)
    ensures
        forall|k: BufferKey|
            #[trigger] entries_map(s).dom().contains(k)
                <==> exists|i: int| 0 <= i < s.len() && (#[trigger] s[i]).0 == k,
    decreases s.len(),
{
    if s.len() > 0 {
        let t = s.drop_last();
        lemma_entries_map_dom(t);
        assert forall|k: BufferKey| #[trigger] entries_map(s).dom().contains(k)
            implies exists|i: int| 0 <= i < s.len() && (#[trigger] s[i]).0 == k by {
            if k == s.last().0 {
                assert(s[s.len() - 1].0 == k);
            } else {
                assert(entries_map(t).dom().contains(k));
                let i = choose|i: int| 0 <= i < t.len() && (#[trigger] t[i]).0 == k;
                assert(s[i].0 == k);
            }
        }
        assert forall|k: BufferKey|
            (exists|i: int| 0 <= i < s.len() && (#[trigger] s[i]).0 == k)
            implies #[trigger] entries_map(s).dom().contains(k) by {
            let i = choose|i: int| 0 <= i < s.len() && (#[trigger] s[i]).0 == k;
            if i < s.len() - 1 {
                assert(t[i].0 == k);
                assert(entries_map(t).dom().contains(k));
            }
        }
    }
}

proof fn lemma_entries_map_get(s: Seq<(BufferKey, Buffer)>, i: int)
    requires
        unique_keys(s),
        0 <= i < s.len(),
    ensures
        entries_map(s).dom().contains(s[i].0),
        entries_map(s)[s[i].0] == s[i].1@,
    decreases s.len(),
{
    if i < s.len() - 1 {
        let t = s.drop_last();
        assert(t[i] == s[i]);
        lemma_entries_map_get(t, i);
        assert(s[i].0 != s.last().0);
    }
}

proof fn lemma_entries_map_remove(s: Seq<(BufferKey, Buffer)>, i: int)
    requires
        unique_keys(s),
        0 <= i < s.len(),
    ensures
        entries_map(s.remove(i)) == entries_map(s).remove(s[i].0),
    decreases s.len(),
{
    let k = s[i].0;
    let t = s.drop_last();
    if i == s.len() - 1 {
        assert(s.remove(i) =~= t);
        lemma_entries_map_dom(t);
        assert(!entries_map(t).dom().contains(k));
        assert(entries_map(t) =~= entries_map(t).insert(k, s.last().1@).remove(k));
    } else {
        lemma_entries_map_remove(t, i);
        assert(s.remove(i).drop_last() =~= t.remove(i));
        assert(s.remove(i).last() == s.last());
        assert(entries_map(s.remove(i))
            == entries_map(t).remove(k).insert(s.last().0, s.last().1@));
        assert(s.last().0 != k);
        assert(entries_map(t).remove(k).insert(s.last().0, s.last().1@)
            =~= entries_map(t).insert(s.last().0, s.last().1@).remove(k));
    }
}

/// The surface identity a telemetry record belongs to.
pub open spec fn spec_key(d: FasData) -> BufferKey {
    BufferKey { buffer: d.buffer, pid: d.pid }
}

/// Upsert-on-telemetry: a known surface records the sample into its
/// buffer, an unseen one gets a fresh buffer with no memory of any
/// earlier incarnation.
pub open spec fn spec_upsert(
    m: Map<BufferKey, BufferModel>,
    d: FasData,
    now: u64,
) -> BufferModel {
    if m.dom().contains(spec_key(d)) {
        m[spec_key(d)].pushed(d.target_fps, d.frametime)
    } else {
        BufferModel::fresh(d.target_fps, d.frametime, now)
    }
}

/// One telemetry turn of the looper: upsert, then the frame analyzer,
/// then the jank analyzer, all against the same buffer.
pub open spec fn spec_process_data(
    m: Map<BufferKey, BufferModel>,
    c: PolicyConfig,
    d: FasData,
    now: u64,
) -> (Map<BufferKey, BufferModel>, EventOutput) {
    let b0 = spec_upsert(m, d, now);
    let (b1, normal) = spec_normal_event(b0, c, now);
    let (b2, jank) = spec_jank_event(b1, c, now);
    (
        m.insert(spec_key(d), b2),
        EventOutput { buffer: d.buffer, pid: d.pid, cpu: d.cpu, normal, jank },
    )
}

/// One turn of the looper on any message.  A removal notice erases the
/// entry — erasing an unknown key changes nothing — and emits no event.
pub open spec fn spec_process_message(
    m: Map<BufferKey, BufferModel>,
    c: PolicyConfig,
    msg: Message,
    now: u64,
) -> (Map<BufferKey, BufferModel>, Option<EventOutput>) {
    match msg {
        Message::Data(d) => {
            let (m2, out) = spec_process_data(m, c, d, now);
            (m2, Option::Some(out))
        },
        Message::RemoveBuffer(t) => {
            (m.remove(BufferKey { buffer: t.0, pid: t.1 }), Option::None)
        },
    }
}

/// The looper applied to a whole message sequence, oldest first; each
/// message carries the monotonic timestamp of its processing turn.
pub open spec fn spec_run(
    m: Map<BufferKey, BufferModel>,
    c: PolicyConfig,
    msgs: Seq<(Message, u64)>,
) -> (Map<BufferKey, BufferModel>, Seq<Option<EventOutput>>)
    decreases msgs.len(),
{
    if msgs.len() == 0 {
        (m, Seq::empty())
    } else {
        let (m1, out) = spec_process_message(m, c, msgs[0].0, msgs[0].1);
        let (m2, outs) = spec_run(m1, c, msgs.drop_first());
        (m2, seq![out] + outs)
    }
}

impl BufferStore {
    /// An empty store.
    pub fn new() -> (r: BufferStore)
        ensures
            r@ == Map::<BufferKey, BufferModel>::empty(),
            r.wf(),
    {
        BufferStore { entries: Vec::new() }
    }

    /// How many surfaces are currently tracked.
    pub fn len(&self) -> (r: usize)
        requires
            self.wf(),
        ensures
            r == self@.dom().len(),
    {
        proof {
            lemma_entries_map_len(self.entries@);
        }
        self.entries.len()
    }

    /// Whether a surface is currently tracked.
    pub fn contains_key(&self, key: BufferKey) -> (r: bool)
        ensures
            r == self@.dom().contains(key),
    {
        proof {
            lemma_entries_map_dom(self.entries@);
        }
        match self.find(key) {
            Option::Some(_) => true,
            Option::None => false,
        }
    }

    /// The tracked state of a surface, if any.
    pub fn get(&self, key: BufferKey) -> (r: Option<&Buffer>)
        requires
            self.wf(),
        ensures
            match r {
                Option::Some(b) => self@.dom().contains(key) && b@ == self@[key],
                Option::None => !self@.dom().contains(key),
            },
    {
        proof {
            lemma_entries_map_dom(self.entries@);
        }
        match self.find(key) {
            Option::Some(i) => {
                proof {
                    lemma_entries_map_get(self.entries@, i as int);
                }
                Option::Some(&self.entries[i].1)
            },
            Option::None => Option::None,
        }
    }

    fn find(&self, key: BufferKey) -> (r: Option<usize>)
        ensures
            match r {
                Option::Some(i) => i < self.entries@.len() && self.entries@[i as int].0 == key,
                Option::None => forall|j: int|
                    0 <= j < self.entries@.len() ==> (#[trigger] self.entries@[j]).0 != key,
            },
    {
        let n = self.entries.len();
        let mut i: usize = 0;
        while i < n
            invariant
                i <= n,
                n == self.entries@.len(),
                forall|j: int| 0 <= j < i ==> (#[trigger] self.entries@[j]).0 != key,
            decreases n - i,
        {
            if self.entries[i].0 == key {
                return Option::Some(i);
            }
            i += 1;
        }
        Option::None
    }

    /// One turn of the scheduler looper: apply one dequeued message to
    /// the store, at the monotonic timestamp `now`, and return the event
    /// pair to forward (nothing for a removal notice).
    pub fn process_message(
        &mut self,
        config: &Config,
        mode: Mode,
        msg: Message,
        now: u64,
    ) -> (r: Option<EventOutput>)
        requires
            old(self).wf(),
        ensures
            final(self)@ == spec_process_message(
                old(self)@,
                spec_mode_config(*config, mode),
                msg,
                now,
            ).0,
            r == spec_process_message(old(self)@, spec_mode_config(*config, mode), msg, now).1,
            final(self).wf(),
    {
        match msg {
            Message::Data(d) => {
                let key = BufferKey { buffer: d.buffer, pid: d.pid };
                proof {
                    lemma_entries_map_dom(self.entries@);
                }
                let mut buf: Buffer;
                match self.find(key) {
                    Option::Some(i) => {
                        proof {
                            lemma_entries_map_get(self.entries@, i as int);
                            lemma_entries_map_remove(self.entries@, i as int);
                            lemma_remove_keeps_unique(self.entries@, i as int);
                        }
                        let entry = self.entries.remove(i);
                        buf = entry.1;
                        buf.push_frametime(d.target_fps, d.frametime);
                    },
                    Option::None => {
                        buf = Buffer::new(d.target_fps, d.frametime, now);
                    },
                }
                let normal = buf.normal_event(config, mode, now);
                let jank = buf.jank_event(config, mode, now);
                let ghost pre_push = self.entries@;
                proof {
                    lemma_entries_map_dom(pre_push);
                    assert(!self@.dom().contains(key));
                    assert(pre_push.push((key, buf)).drop_last() =~= pre_push);
                }
                self.entries.push((key, buf));
                proof {
                    assert(old(self)@.remove(key).insert(key, buf@)
                        =~= old(self)@.insert(key, buf@));
                    lemma_push_keeps_unique(pre_push, self.entries@, key);
                }
                Option::Some(
                    EventOutput { buffer: d.buffer, pid: d.pid, cpu: d.cpu, normal, jank },
                )
            },
            Message::RemoveBuffer(t) => {
                let key = BufferKey { buffer: t.0, pid: t.1 };
                proof {
                    lemma_entries_map_dom(self.entries@);
                }
                match self.find(key) {
                    Option::Some(i) => {
                        proof {
                            lemma_entries_map_remove(self.entries@, i as int);
                            lemma_remove_keeps_unique(self.entries@, i as int);
                        }
                        let _ = self.entries.remove(i);
                    },
                    Option::None => {
                        proof {
                            assert(!self@.dom().contains(key));
                            assert(self@.remove(key) =~= self@);
                        }
                    },
                }
                Option::None
            },
        }
    }

    /// The looper applied to a whole batch of dequeued messages, oldest
    /// first.  The resulting store and event sequence are exactly
    /// [`spec_run`] of the input sequence: they depend on the arrival
    /// order and timestamps alone.
    pub fn process_messages(
        &mut self,
        config: &Config,
        mode: Mode,
        msgs: Vec<(Message, u64)>,
    ) -> (outs: Vec<Option<EventOutput>>)
        requires
            old(self).wf(),
        ensures
            final(self)@ == spec_run(old(self)@, spec_mode_config(*config, mode), msgs@).0,
            outs@ == spec_run(old(self)@, spec_mode_config(*config, mode), msgs@).1,
            final(self).wf(),
    {
        let ghost m0 = self@;
        let ghost all = msgs@;
        let ghost c = spec_mode_config(*config, mode);
        let mut msgs = msgs;
        let mut outs: Vec<Option<EventOutput>> = Vec::new();
        proof {
            assert(outs@ + spec_run(m0, c, all).1 =~= spec_run(m0, c, all).1);
        }
        while msgs.len() > 0
            invariant
                self.wf(),
                c == spec_mode_config(*config, mode),
                spec_run(self@, c, msgs@).0 == spec_run(m0, c, all).0,
                outs@ + spec_run(self@, c, msgs@).1 =~= spec_run(m0, c, all).1,
            decreases msgs@.len(),
        {
            let ghost pre = msgs@;
            let ghost pre_m = self@;
            let ghost pre_outs = outs@;
            let (msg, now) = msgs.remove(0);
            proof {
                assert(msgs@ =~= pre.drop_first());
                assert(msg == pre[0].0 && now == pre[0].1);
            }
            let out = self.process_message(config, mode, msg, now);
            outs.push(out);
            proof {
                assert(spec_process_message(pre_m, c, pre[0].0, pre[0].1).0 == self@);
                assert(spec_process_message(pre_m, c, pre[0].0, pre[0].1).1 == out);
                assert(spec_run(pre_m, c, pre).0 == spec_run(self@, c, pre.drop_first()).0);
                assert(spec_run(pre_m, c, pre).1
                    == seq![out] + spec_run(self@, c, pre.drop_first()).1);
                assert(outs@ =~= pre_outs.push(out));
                assert(outs@ + spec_run(self@, c, msgs@).1
                    =~= (pre_outs + spec_run(pre_m, c, pre).1));
            }
        }
        proof {
            assert(outs@ + spec_run(self@, c, msgs@).1 =~= outs@);
        }
        outs
    }
}

proof fn lemma_entries_map_len(s: Seq<(BufferKey, Buffer)>)
    requires
        unique_keys(s),
    ensures
        entries_map(s).dom().finite(),
        entries_map(s).dom().len() == s.len(),
    decreases s.len(),
{
    if s.len() > 0 {
        let t = s.drop_last();
        lemma_entries_map_len(t);
        lemma_entries_map_dom(t);
        assert(!entries_map(t).dom().contains(s.last().0));
    }
}

proof fn lemma_remove_keeps_unique(s: Seq<(BufferKey, Buffer)>, i: int)
    requires
        unique_keys(s),
        0 <= i < s.len(),
        forall|j: int| 0 <= j < s.len() ==> (#[trigger] s[j]).1.wf(),
    ensures
        unique_keys(s.remove(i)),
        forall|j: int| 0 <= j < s.remove(i).len() ==> (#[trigger] s.remove(i)[j]).1.wf(),
        forall|j: int|
            0 <= j < s.remove(i).len() ==> (#[trigger] s.remove(i)[j]).0 != s[i].0,
{
    let r = s.remove(i);
    assert forall|j: int| 0 <= j < r.len() implies (#[trigger] r[j]).1.wf()
        && r[j].0 != s[i].0 by {
        if j < i {
            assert(r[j] == s[j]);
        } else {
            assert(r[j] == s[j + 1]);
        }
    }
    assert forall|a: int, b: int| 0 <= a < b < r.len()
        implies (#[trigger] r[a]).0 != (#[trigger] r[b]).0 by {
        if a < i {
            assert(r[a] == s[a]);
        } else {
            assert(r[a] == s[a + 1]);
        }
        if b < i {
            assert(r[b] == s[b]);
        } else {
            assert(r[b] == s[b + 1]);
        }
    }
}

proof fn lemma_push_keeps_unique(
    s: Seq<(BufferKey, Buffer)>,
    pushed: Seq<(BufferKey, Buffer)>,
    key: BufferKey,
)
    requires
        pushed.len() == s.len() + 1,
        forall|j: int| 0 <= j < s.len() ==> pushed[j] == s[j],
        pushed.last().0 == key,
        forall|j: int| 0 <= j < s.len() ==> (#[trigger] s[j]).0 != key,
        unique_keys(s),
        forall|j: int| 0 <= j < s.len() ==> (#[trigger] s[j]).1.wf(),
        pushed.last().1.wf(),
    ensures
        unique_keys(pushed),
        forall|j: int| 0 <= j < pushed.len() ==> (#[trigger] pushed[j]).1.wf(),
{
    assert forall|a: int, b: int| 0 <= a < b < pushed.len()
        implies (#[trigger] pushed[a]).0 != (#[trigger] pushed[b]).0 by {
        if b < pushed.len() - 1 {
            assert(pushed[a] == s[a]);
            assert(pushed[b] == s[b]);
        } else {
            assert(pushed[a] == s[a]);
            assert(pushed[b] == pushed.last());
        }
    }
    assert forall|j: int| 0 <= j < pushed.len() implies (#[trigger] pushed[j]).1.wf() by {
        if j < pushed.len() - 1 {
            assert(pushed[j] == s[j]);
        } else {
            assert(pushed[j] == pushed.last());
        }
    }
}

/// The compute half of frame submission: resolve the package to its
/// target rate and build the telemetry record for the channel.  An
/// untracked package yields nothing — the caller reports `false` and
/// enqueues nothing.  Frame durations are non-negative by construction.
pub fn submit_frame(
    config: &Config,
    buffer: i64,
    pkg: &String,
    pid: i32,
    frametime_ns: i64,
    cpu: i32,
) -> (r: Option<FasData>)
    requires
        frametime_ns >= 0,
    ensures
        match r {
            Option::Some(d) => {
                &&& spec_target_fps(config.target_fps_table@, pkg@) is Some
                &&& d.buffer == buffer
                &&& d.pid == pid
                &&& d.pkg == *pkg
                &&& d.target_fps == spec_target_fps(config.target_fps_table@, pkg@)
                &&& d.frametime == frametime_ns as u64
                &&& d.cpu == cpu
            },
            Option::None => spec_target_fps(config.target_fps_table@, pkg@) is None,
        },
{
    let target_fps = match config.target_fps(pkg) {
        Option::Some(fps) => fps,
        Option::None => {
            return Option::None;
        },
    };
    Option::Some(
        FasData {
            buffer,
            pid,
            pkg: pkg.clone(),
            target_fps: Option::Some(target_fps),
            frametime: frametime_ns as u64,
            cpu,
        },
    )
}

} // verus!
