use fas_rs::buffer::Buffer;
use fas_rs::config::Config;
use fas_rs::config::Mode;
use fas_rs::config::PolicyConfig;
use fas_rs::policy::JankEvent;
use fas_rs::policy::NormalEvent;
use fas_rs::policy::PolicyData;

fn thresholds() -> PolicyConfig {
    PolicyConfig {
        acc_dur: 1,
        scale: 500_000_000,
        jank_scale: 200_000_000,
        big_jank_scale: 500_000_000,
    }
}

fn config() -> Config {
    Config {
        powersave: PolicyConfig { acc_dur: 2, scale: 800_000_000, ..thresholds() },
        balance: thresholds(),
        performance: thresholds(),
        fast: PolicyConfig { acc_dur: 1, scale: 300_000_000, ..thresholds() },
        target_fps_table: vec![(String::from("com.example.game"), 60)],
    }
}

#[test]
fn extract_exact_values() {
    // Three 10 ms frames at 100 fps: the window mean is exactly on
    // budget, so the normalized frame is exactly 1.0 (in parts per
    // billion); the smoothed average of 20 ms normalizes to 2.0.
    let buffer = Buffer {
        target_fps: Some(100),
        frametimes: vec![10_000_000, 10_000_000, 10_000_000],
        avg_time: 20_000_000,
        acc_frame: 0,
        acc_timer: 0,
    };
    let data = PolicyData::extract(&buffer).unwrap();
    assert_eq!(data.target_fps, 100);
    assert_eq!(data.normalized_frame, 1_000_000_000);
    assert_eq!(data.normalized_avg_frame, 2_000_000_000);
}

#[test]
fn extract_uses_five_most_recent() {
    // Most-recent-first history: the two old 8 ms frames fall outside
    // the five-sample window, so the mean is 2 ms.
    let buffer = Buffer {
        target_fps: Some(100),
        frametimes: vec![
            2_000_000, 2_000_000, 2_000_000, 2_000_000, 2_000_000, 8_000_000, 8_000_000,
        ],
        avg_time: 2_000_000,
        acc_frame: 0,
        acc_timer: 0,
    };
    let data = PolicyData::extract(&buffer).unwrap();
    assert_eq!(data.normalized_frame, 200_000_000);
}

#[test]
fn extract_inert_buffer() {
    let buffer = Buffer {
        target_fps: None,
        frametimes: vec![10_000_000],
        avg_time: 10_000_000,
        acc_frame: 0,
        acc_timer: 0,
    };
    assert!(PolicyData::extract(&buffer).is_none());
}

#[test]
fn inert_buffer_never_fires() {
    // An unresolvable target rate means "no event" on every call, and
    // the buffer is left untouched.
    let cfg = config();
    let mut buffer = Buffer {
        target_fps: None,
        frametimes: vec![50_000_000, 50_000_000],
        avg_time: 50_000_000,
        acc_frame: 77,
        acc_timer: 5,
    };
    for step in 0..10u64 {
        let now = step * 16_666_667;
        assert_eq!(buffer.normal_event(&cfg, Mode::Balance, now), NormalEvent::NoEvent);
        assert_eq!(buffer.jank_event(&cfg, Mode::Balance, now), JankEvent::NoEvent);
    }
    assert_eq!(buffer.acc_frame, 77);
    assert_eq!(buffer.acc_timer, 5);
    assert_eq!(buffer.frametimes, vec![50_000_000, 50_000_000]);
}

#[test]
fn steady_state_never_releases_or_janks() {
    // 60 fps, every frame right at the 16.667 ms budget: neither
    // Release nor any jank severity ever fires, however long it runs.
    let cfg = config();
    let frametime: u64 = 16_666_666;
    let mut buffer = Buffer::new(Some(60), frametime, 0);
    let mut now: u64 = 0;
    for _ in 0..600 {
        now += frametime;
        buffer.push_frametime(Some(60), frametime);
        let normal = buffer.normal_event(&cfg, Mode::Balance, now);
        let jank = buffer.jank_event(&cfg, Mode::Balance, now);
        assert_ne!(normal, NormalEvent::Release);
        assert_eq!(jank, JankEvent::NoEvent);
    }
}

#[test]
fn severe_spike_is_big_jank_and_resets_accumulator() {
    // 60 fps with big_jank_scale = 0.5: a sustained doubled frame time
    // (33.33 ms) pushes the long-run average to 2x budget, a full
    // budget of overrun beyond the 0.5 threshold, so the jank analyzer
    // reports BigJank and cancels the pending accumulation.
    let cfg = config();
    let mut buffer = Buffer {
        target_fps: Some(60),
        frametimes: vec![33_333_334, 33_333_334, 33_333_334],
        avg_time: 33_333_334,
        acc_frame: 123_456,
        acc_timer: 0,
    };
    let jank = buffer.jank_event(&cfg, Mode::Balance, 33_333_334);
    assert_eq!(jank, JankEvent::BigJank);
    assert_eq!(buffer.acc_frame, 0);
}

#[test]
fn moderate_spike_is_jank() {
    // Average 25% over budget at 60 fps: past jank_scale = 0.2 but
    // short of big_jank_scale = 0.5.
    let cfg = config();
    let mut buffer = Buffer {
        target_fps: Some(60),
        frametimes: vec![20_833_333],
        avg_time: 20_833_334,
        acc_frame: -5,
        acc_timer: 0,
    };
    let jank = buffer.jank_event(&cfg, Mode::Balance, 1);
    assert_eq!(jank, JankEvent::Jank);
    assert_eq!(buffer.acc_frame, 0);
}

#[test]
fn cumulative_release_at_decision_point() {
    // Gate open (acc_dur = 0): banked overrun of +0.6 reaches
    // scale = 0.5, so the decision is Release and the window restarts.
    let pc = PolicyConfig { acc_dur: 0, ..thresholds() };
    let mut buffer = Buffer {
        target_fps: Some(60),
        frametimes: vec![16_666_666],
        avg_time: 16_666_666,
        acc_frame: 0,
        acc_timer: 0,
    };
    let data = PolicyData {
        target_fps: 60,
        normalized_frame: 1_600_000_000,
        normalized_avg_frame: 1_000_000_000,
    };
    let ev = buffer.frame_analyze(pc, data, 42);
    assert_eq!(ev, NormalEvent::Release);
    assert_eq!(buffer.acc_frame, 0);
    assert_eq!(buffer.acc_timer, 42);
}

#[test]
fn cumulative_just_under_scale_is_restrictable() {
    // Banked overrun of +0.4 stays under scale = 0.5: Restrictable,
    // and the accumulator still resets with the window.
    let pc = PolicyConfig { acc_dur: 0, ..thresholds() };
    let mut buffer = Buffer {
        target_fps: Some(60),
        frametimes: vec![16_666_666],
        avg_time: 16_666_666,
        acc_frame: 0,
        acc_timer: 0,
    };
    let data = PolicyData {
        target_fps: 60,
        normalized_frame: 1_400_000_000,
        normalized_avg_frame: 1_000_000_000,
    };
    let ev = buffer.frame_analyze(pc, data, 42);
    assert_eq!(ev, NormalEvent::Restrictable);
    assert_eq!(buffer.acc_frame, 0);
    assert_eq!(buffer.acc_timer, 42);
}

#[test]
fn closed_window_banks_without_deciding() {
    // Gate closed (only one frame interval into a two-interval window):
    // the overrun is banked, no event, no reset.
    let pc = PolicyConfig { acc_dur: 2, ..thresholds() };
    let mut buffer = Buffer {
        target_fps: Some(60),
        frametimes: vec![16_666_666],
        avg_time: 16_666_666,
        acc_frame: 100,
        acc_timer: 0,
    };
    let data = PolicyData {
        target_fps: 60,
        normalized_frame: 1_600_000_000,
        normalized_avg_frame: 1_000_000_000,
    };
    let ev = buffer.frame_analyze(pc, data, 16_666_667);
    assert_eq!(ev, NormalEvent::NoEvent);
    assert_eq!(buffer.acc_frame, 100 + 600_000_000);
    assert_eq!(buffer.acc_timer, 0);
}

#[test]
fn fast_frames_bank_credit() {
    // A frame at half budget banks -0.5 of credit: the accumulator is
    // signed and may go negative.
    let pc = PolicyConfig { acc_dur: 2, ..thresholds() };
    let mut buffer = Buffer {
        target_fps: Some(60),
        frametimes: vec![8_333_333],
        avg_time: 8_333_333,
        acc_frame: 0,
        acc_timer: 0,
    };
    let data = PolicyData {
        target_fps: 60,
        normalized_frame: 500_000_000,
        normalized_avg_frame: 500_000_000,
    };
    let ev = buffer.frame_analyze(pc, data, 1);
    assert_eq!(ev, NormalEvent::NoEvent);
    assert_eq!(buffer.acc_frame, -500_000_000);
}

#[test]
fn smoothed_average_formula() {
    let mut buffer = Buffer::new(Some(60), 10_000_000, 0);
    assert_eq!(buffer.avg_time, 10_000_000);
    buffer.push_frametime(Some(60), 20_000_000);
    // (10ms * 9 + 20ms) / 10
    assert_eq!(buffer.avg_time, 11_000_000);
}

#[test]
fn severity_ranks_are_ordered() {
    assert_eq!(NormalEvent::Restrictable.severity(), 0);
    assert_eq!(NormalEvent::NoEvent.severity(), 1);
    assert_eq!(NormalEvent::Release.severity(), 2);
    assert_eq!(JankEvent::NoEvent.severity(), 0);
    assert_eq!(JankEvent::Jank.severity(), 1);
    assert_eq!(JankEvent::BigJank.severity(), 2);
}

#[test]
fn mode_resolution_picks_mode_thresholds() {
    let cfg = config();
    let buffer = Buffer::new(Some(60), 16_666_666, 0);
    let pc = PolicyConfig::new(&cfg, Mode::Powersave, &buffer);
    assert_eq!(pc.scale, 800_000_000);
    assert_eq!(pc.acc_dur, 2);
    let pc = PolicyConfig::new(&cfg, Mode::Fast, &buffer);
    assert_eq!(pc.scale, 300_000_000);
}
