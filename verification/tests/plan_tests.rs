use squeeze::compress::CompressOptions;
use squeeze::plan::{
    assumed_audio_bps, choose_fps, choose_resolution, initial_audio, make_even, plan_initial,
    plan_with_bitrate, AudioAction, EncodePlan, MIN_VIDEO_BPS,
};
use squeeze::probe::MediaInfo;

fn info(width: i32, height: i32, fps_num: i32, fps_den: i32) -> MediaInfo {
    MediaInfo {
        duration_us: 60_000_000,
        width,
        height,
        fps_num,
        fps_den,
        has_audio: true,
        audio_bitrate_bps: 0,
        video_codec: "h264".to_string(),
    }
}

fn opts(keep_fps: bool, include_audio: bool) -> CompressOptions {
    CompressOptions { keep_fps, include_audio, ..Default::default() }
}

#[test]
fn make_even_rounds_down_and_floors_at_two() {
    assert_eq!(make_even(1080), 1080);
    assert_eq!(make_even(1081), 1080);
    assert_eq!(make_even(3), 2);
    assert_eq!(make_even(2), 2);
    assert_eq!(make_even(1), 2);
    assert_eq!(make_even(0), 2);
    assert_eq!(make_even(-7), 2);
    assert_eq!(make_even(i32::MAX), i32::MAX - 1);
}

#[test]
fn resolution_caps_at_1080p() {
    assert_eq!(choose_resolution(&info(2560, 1440, 60, 1), 5_000_000), (1920, 1080));
    assert_eq!(choose_resolution(&info(3840, 2160, 60, 1), 5_000_000), (1920, 1080));
}

#[test]
fn resolution_steps_down_when_bits_are_tight() {
    assert_eq!(choose_resolution(&info(2560, 1440, 60, 1), 1_599_999), (1280, 720));
    assert_eq!(choose_resolution(&info(2560, 1440, 60, 1), 1_600_000), (1920, 1080));
    // 2560 * 480 / 1440 = 853.33 -> 853 -> 852
    assert_eq!(choose_resolution(&info(2560, 1440, 60, 1), 699_999), (852, 480));
    assert_eq!(choose_resolution(&info(2560, 1440, 60, 1), 700_000), (1280, 720));
}

#[test]
fn resolution_never_upscales() {
    assert_eq!(choose_resolution(&info(1280, 720, 60, 1), 20_000_000), (1280, 720));
    assert_eq!(choose_resolution(&info(1280, 720, 60, 1), 1_000_000), (1280, 720));
    assert_eq!(choose_resolution(&info(641, 361, 30, 1), 200_000), (640, 360));
}

#[test]
fn resolution_rounds_scaled_width_to_nearest() {
    // 2561 * 720 / 1440 = 1280.5 -> 1281 -> 1280
    assert_eq!(choose_resolution(&info(2561, 1440, 60, 1), 1_000_000), (1280, 720));
    // 2566 * 720 / 1440 = 1283 -> 1282
    assert_eq!(choose_resolution(&info(2566, 1440, 60, 1), 1_000_000), (1282, 720));
    // 1999 * 1080 / 1125 = 1919.04 -> 1919 -> 1918
    assert_eq!(choose_resolution(&info(1999, 1125, 60, 1), 9_000_000), (1918, 1080));
}

#[test]
fn resolution_of_degenerate_sources() {
    assert_eq!(choose_resolution(&info(0, 0, 30, 1), 1_000_000), (2, 2));
    assert_eq!(choose_resolution(&info(-100, 1440, 30, 1), 1_000_000), (2, 720));
}

#[test]
fn fps_caps_60_to_30_when_tight() {
    assert_eq!(choose_fps(&info(1920, 1080, 60, 1), &opts(false, true), 2_999_999), (30, 1));
    assert_eq!(choose_fps(&info(1920, 1080, 60000, 1001), &opts(false, true), 1_000_000), (30, 1));
}

#[test]
fn fps_kept_when_bits_allow_or_asked() {
    assert_eq!(choose_fps(&info(1920, 1080, 60, 1), &opts(false, true), 3_000_000), (60, 1));
    assert_eq!(choose_fps(&info(1920, 1080, 60, 1), &opts(true, true), 1_000_000), (60, 1));
    assert_eq!(choose_fps(&info(1920, 1080, 45, 1), &opts(false, true), 1_000_000), (45, 1));
    assert_eq!(choose_fps(&info(1920, 1080, 30000, 1001), &opts(false, true), 1_000_000), (30000, 1001));
}

#[test]
fn fps_denominator_is_normalized() {
    assert_eq!(choose_fps(&info(1920, 1080, 25, 0), &opts(false, true), 1_000_000), (25, 1));
    assert_eq!(choose_fps(&info(1920, 1080, 60, -3), &opts(false, true), 1_000_000), (30, 1));
}

#[test]
fn audio_bitrate_falls_back_to_160k() {
    let mut i = info(1920, 1080, 60, 1);
    assert_eq!(assumed_audio_bps(&i), 160_000);
    i.audio_bitrate_bps = 128_000;
    assert_eq!(assumed_audio_bps(&i), 128_000);
    i.audio_bitrate_bps = -5;
    assert_eq!(assumed_audio_bps(&i), 160_000);
}

#[test]
fn audio_copied_only_when_wanted_and_present() {
    let mut i = info(1920, 1080, 60, 1);
    assert_eq!(initial_audio(&i, &opts(false, true)), AudioAction::Copy);
    assert_eq!(initial_audio(&i, &opts(false, false)), AudioAction::Drop);
    i.has_audio = false;
    assert_eq!(initial_audio(&i, &opts(false, true)), AudioAction::Drop);
}

#[test]
fn bitrate_is_floored() {
    let p = plan_with_bitrate(&info(1920, 1080, 60, 1), &opts(false, true), AudioAction::Drop, 50_000);
    assert_eq!(p.video_bitrate_bps, MIN_VIDEO_BPS);
    assert_eq!((p.width, p.height), (852, 480));
    assert_eq!((p.fps_num, p.fps_den), (30, 1));
    let p = plan_with_bitrate(&info(1920, 1080, 60, 1), &opts(false, true), AudioAction::Drop, -9);
    assert_eq!(p.video_bitrate_bps, 120_000);
}

#[test]
fn initial_plan_for_a_1440p60_clip() {
    let i = info(2560, 1440, 60, 1);
    let p = plan_initial(&i, &opts(false, true), 1_100_000);
    assert_eq!(
        p,
        EncodePlan {
            width: 1280,
            height: 720,
            fps_num: 30,
            fps_den: 1,
            video_bitrate_bps: 1_100_000,
            audio: AudioAction::Copy,
        }
    );
}

#[test]
fn shrink_keeps_audio_and_steps_down() {
    let i = info(2560, 1440, 60, 1);
    let o = opts(false, true);
    let p = plan_initial(&i, &o, 5_000_000);
    assert_eq!((p.width, p.height, p.fps_num), (1920, 1080, 60));
    let q = p.shrink(&i, &o, 1_500_000);
    assert_eq!(q.audio, AudioAction::Copy);
    assert_eq!((q.width, q.height, q.fps_num, q.fps_den), (1280, 720, 30, 1));
    assert_eq!(q.video_bitrate_bps, 1_500_000);
    let r = q.shrink(&i, &o, 100);
    assert_eq!(r.video_bitrate_bps, MIN_VIDEO_BPS);
    assert_eq!(r.height, 480);
}

#[test]
fn lower_bitrate_never_raises_resolution_or_rate() {
    let i = info(3840, 2160, 60, 1);
    let o = opts(false, false);
    let mut prev = plan_initial(&i, &o, 40_000_000);
    for raw in [8_000_000i64, 2_999_999, 1_500_000, 690_000, 10] {
        let next = prev.shrink(&i, &o, raw);
        assert!(next.height <= prev.height);
        assert!(next.width <= prev.width);
        assert!((next.fps_num as i64) * (prev.fps_den as i64) <= (prev.fps_num as i64) * (next.fps_den as i64));
        prev = next;
    }
}

#[test]
fn shrink_never_raises_the_bitrate() {
    let i = info(1280, 720, 30, 1);
    let o = opts(false, true);
    let p = plan_with_bitrate(&i, &o, AudioAction::Copy, 500_000);
    assert_eq!((p.video_bitrate_bps, p.height), (500_000, 480));
    let q = p.shrink(&i, &o, 5_000_000);
    assert_eq!(q.video_bitrate_bps, 499_999);
    assert_eq!(q.height, 480);
    let at_floor = plan_with_bitrate(&i, &o, AudioAction::Drop, 0);
    assert_eq!(at_floor.shrink(&i, &o, 5_000_000).video_bitrate_bps, MIN_VIDEO_BPS);
    // a raw rate below the current one is taken as it is
    assert_eq!(p.shrink(&i, &o, 300_000).video_bitrate_bps, 300_000);
}
