use fas_rs::config::Config;
use fas_rs::config::Mode;
use fas_rs::config::PolicyConfig;
use fas_rs::looper::BufferKey;
use fas_rs::looper::BufferStore;
use fas_rs::looper::FasData;
use fas_rs::looper::Message;
use fas_rs::looper::submit_frame;
use fas_rs::policy::JankEvent;
use fas_rs::policy::NormalEvent;

fn thresholds() -> PolicyConfig {
    PolicyConfig {
        acc_dur: 1,
        scale: 500_000_000,
        jank_scale: 200_000_000,
        big_jank_scale: 500_000_000,
    }
}

fn config() -> Config {
    Config {
        powersave: thresholds(),
        balance: thresholds(),
        performance: thresholds(),
        fast: thresholds(),
        target_fps_table: vec![
            (String::from("com.example.game"), 60),
            (String::from("com.example.video"), 30),
        ],
    }
}

fn telemetry(buffer: i64, pid: i32, frametime: u64) -> Message {
    Message::Data(FasData {
        buffer,
        pid,
        pkg: String::from("com.example.game"),
        target_fps: Some(60),
        frametime,
        cpu: 3,
    })
}

#[test]
fn submit_frame_resolves_tracked_package() {
    let cfg = config();
    let pkg = String::from("com.example.video");
    let data = submit_frame(&cfg, 7, &pkg, 100, 33_000_000, 2).unwrap();
    assert_eq!(data.buffer, 7);
    assert_eq!(data.pid, 100);
    assert_eq!(data.pkg, "com.example.video");
    assert_eq!(data.target_fps, Some(30));
    assert_eq!(data.frametime, 33_000_000);
    assert_eq!(data.cpu, 2);
}

#[test]
fn submit_frame_rejects_untracked_package() {
    let cfg = config();
    let pkg = String::from("com.example.unknown");
    assert!(submit_frame(&cfg, 7, &pkg, 100, 33_000_000, 2).is_none());
}

#[test]
fn telemetry_creates_and_fills_buffer() {
    let cfg = config();
    let mut store = BufferStore::new();
    let out = store
        .process_message(&cfg, Mode::Balance, telemetry(1, 10, 16_666_666), 0)
        .unwrap();
    assert_eq!(out.buffer, 1);
    assert_eq!(out.pid, 10);
    assert_eq!(out.cpu, 3);
    assert_eq!(store.len(), 1);
    let buf = store.get(BufferKey { buffer: 1, pid: 10 }).unwrap();
    assert_eq!(buf.frametimes, vec![16_666_666]);
    assert_eq!(buf.avg_time, 16_666_666);
    assert_eq!(buf.target_fps, Some(60));
}

#[test]
fn removal_of_unknown_key_is_noop() {
    let cfg = config();
    let mut store = BufferStore::new();
    let out = store.process_message(&cfg, Mode::Balance, Message::RemoveBuffer((9, 9)), 0);
    assert!(out.is_none());
    assert_eq!(store.len(), 0);

    let _ = store.process_message(&cfg, Mode::Balance, telemetry(1, 10, 16_666_666), 0);
    let out = store.process_message(&cfg, Mode::Balance, Message::RemoveBuffer((1, 11)), 1);
    assert!(out.is_none());
    assert_eq!(store.len(), 1);
    assert!(store.contains_key(BufferKey { buffer: 1, pid: 10 }));
}

#[test]
fn removal_erases_the_surface() {
    let cfg = config();
    let mut store = BufferStore::new();
    let _ = store.process_message(&cfg, Mode::Balance, telemetry(1, 10, 16_666_666), 0);
    let _ = store.process_message(&cfg, Mode::Balance, telemetry(2, 10, 16_666_666), 1);
    let out = store.process_message(&cfg, Mode::Balance, Message::RemoveBuffer((1, 10)), 2);
    assert!(out.is_none());
    assert_eq!(store.len(), 1);
    assert!(!store.contains_key(BufferKey { buffer: 1, pid: 10 }));
    assert!(store.contains_key(BufferKey { buffer: 2, pid: 10 }));
}

#[test]
fn recreation_after_removal_has_no_memory() {
    // Removal followed by telemetry behaves exactly like a first-ever
    // record: the recreated buffer equals the one a fresh store builds.
    let cfg = config();

    let mut seasoned = BufferStore::new();
    for step in 0..20u64 {
        let _ = seasoned.process_message(
            &cfg,
            Mode::Balance,
            telemetry(1, 10, 40_000_000),
            step * 16_666_667,
        );
    }
    let _ = seasoned.process_message(&cfg, Mode::Balance, Message::RemoveBuffer((1, 10)), 400_000_000);
    let out_a = seasoned.process_message(&cfg, Mode::Balance, telemetry(1, 10, 16_666_666), 500_000_000);

    let mut fresh = BufferStore::new();
    let out_b = fresh.process_message(&cfg, Mode::Balance, telemetry(1, 10, 16_666_666), 500_000_000);

    assert_eq!(out_a, out_b);
    let key = BufferKey { buffer: 1, pid: 10 };
    let a = seasoned.get(key).unwrap();
    let b = fresh.get(key).unwrap();
    assert_eq!(a.frametimes, b.frametimes);
    assert_eq!(a.avg_time, b.avg_time);
    assert_eq!(a.acc_frame, b.acc_frame);
    assert_eq!(a.acc_timer, b.acc_timer);
    assert_eq!(a.target_fps, b.target_fps);
}

#[test]
fn batch_processing_is_deterministic() {
    // The same message sequence yields the same events and state,
    // run by run: the outcome depends on arrival order alone.
    let cfg = config();
    let build = || {
        vec![
            (telemetry(1, 10, 16_666_666), 16_666_666u64),
            (telemetry(2, 11, 40_000_000), 33_333_332u64),
            (Message::RemoveBuffer((1, 10)), 50_000_000u64),
            (telemetry(1, 10, 20_000_000), 66_666_664u64),
        ]
    };
    let mut store_a = BufferStore::new();
    let outs_a = store_a.process_messages(&cfg, Mode::Balance, build());
    let mut store_b = BufferStore::new();
    let outs_b = store_b.process_messages(&cfg, Mode::Balance, build());
    assert_eq!(outs_a, outs_b);
    assert_eq!(outs_a.len(), 4);
    assert!(outs_a[2].is_none());
    let key = BufferKey { buffer: 1, pid: 10 };
    let a = store_a.get(key).unwrap();
    let b = store_b.get(key).unwrap();
    assert_eq!(a.frametimes, b.frametimes);
    assert_eq!(a.acc_frame, b.acc_frame);
}

#[test]
fn history_is_capped_at_retention() {
    let cfg = config();
    let mut store = BufferStore::new();
    for step in 0..100u64 {
        let _ = store.process_message(
            &cfg,
            Mode::Balance,
            telemetry(1, 10, 16_666_666),
            step * 16_666_667,
        );
    }
    let buf = store.get(BufferKey { buffer: 1, pid: 10 }).unwrap();
    assert_eq!(buf.frametimes.len(), 60);
}

#[test]
fn inert_telemetry_emits_no_events() {
    // A record whose package never resolved still creates a buffer,
    // but one that cannot fire any event.
    let cfg = config();
    let mut store = BufferStore::new();
    let msg = Message::Data(FasData {
        buffer: 5,
        pid: 50,
        pkg: String::from("com.example.unknown"),
        target_fps: None,
        frametime: 500_000_000,
        cpu: 0,
    });
    let out = store.process_message(&cfg, Mode::Balance, msg, 0).unwrap();
    assert_eq!(out.normal, NormalEvent::NoEvent);
    assert_eq!(out.jank, JankEvent::NoEvent);
}

#[test]
fn later_target_rate_overwrites_stored_one() {
    let cfg = config();
    let mut store = BufferStore::new();
    let _ = store.process_message(&cfg, Mode::Balance, telemetry(1, 10, 16_666_666), 0);
    let msg = Message::Data(FasData {
        buffer: 1,
        pid: 10,
        pkg: String::from("com.example.game"),
        target_fps: Some(120),
        frametime: 8_000_000,
        cpu: 3,
    });
    let _ = store.process_message(&cfg, Mode::Balance, msg, 16_666_667);
    let buf = store.get(BufferKey { buffer: 1, pid: 10 }).unwrap();
    assert_eq!(buf.target_fps, Some(120));
    assert_eq!(buf.frametimes, vec![8_000_000, 16_666_666]);
}

#[test]
fn sustained_overrun_releases_end_to_end() {
    // 25 ms frames at 60 fps overrun the budget by 0.5 each.  The first
    // record lands inside a fresh window and is only banked; by the
    // second the window has elapsed and the bank (1.0) is past
    // scale = 0.5, so the frame analyzer releases.  The long-run
    // average (25 ms, 1.5x budget) is at big_jank_scale = 0.5 too.
    let cfg = config();
    let mut store = BufferStore::new();
    let out1 = store
        .process_message(&cfg, Mode::Balance, telemetry(1, 10, 25_000_000), 0)
        .unwrap();
    assert_eq!(out1.normal, NormalEvent::NoEvent);
    let out2 = store
        .process_message(&cfg, Mode::Balance, telemetry(1, 10, 25_000_000), 25_000_000)
        .unwrap();
    assert_eq!(out2.normal, NormalEvent::Release);
    assert_eq!(out2.jank, JankEvent::BigJank);
    let buf = store.get(BufferKey { buffer: 1, pid: 10 }).unwrap();
    assert_eq!(buf.acc_frame, 0);
    assert_eq!(buf.acc_timer, 25_000_000);
}
