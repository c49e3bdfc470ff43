use squeeze::compress::{CompressOptions, CompressSession, NoPassAllowed, PassVerdict};
use squeeze::encode::{Encoder, EncoderKind};
use squeeze::plan::{plan_initial, AudioAction, MIN_VIDEO_BPS};
use squeeze::probe::MediaInfo;

fn info() -> MediaInfo {
    MediaInfo {
        duration_us: 30_000_000,
        width: 2560,
        height: 1440,
        fps_num: 60,
        fps_den: 1,
        has_audio: true,
        audio_bitrate_bps: 160_000,
        video_codec: "h264".to_string(),
    }
}

fn opts(max_bytes: u64, max_passes: u32) -> CompressOptions {
    CompressOptions { max_bytes, max_passes, ..Default::default() }
}

#[test]
fn default_options() {
    let o = CompressOptions::default();
    assert_eq!(o.max_bytes, 10_000_000);
    assert_eq!(o.max_passes, 3);
    assert_eq!(o.encoder, Encoder::Auto);
    assert!(!o.keep_fps);
    assert!(o.include_audio);
}

#[test]
fn first_pass_fits() {
    let o = opts(10_000_000, 3);
    let mut s = CompressSession::start(info(), &o, EncoderKind::Nvenc, 5_000_000).unwrap();
    assert_eq!(s.passes(), 0);
    assert_eq!(s.plan(), plan_initial(&info(), &o, 5_000_000));
    let pass = s.begin_pass();
    assert_eq!((pass.pass, pass.max_passes), (1, 3));
    assert_eq!(pass.encoder, "h264_nvenc");
    assert_eq!(pass.plan.audio, AudioAction::Copy);
    assert_eq!(s.record_size(10_000_000), PassVerdict::Fits);
    let (sum, back) = s.finish(10_000_000);
    assert!(sum.fits);
    assert_eq!((sum.final_bytes, sum.passes), (10_000_000, 1));
    assert_eq!(sum.last_plan, plan_initial(&info(), &o, 5_000_000));
    assert_eq!(back.video_codec, "h264");
}

#[test]
fn each_retry_lowers_the_bitrate_then_gives_up() {
    let o = opts(1000, 3);
    let mut s = CompressSession::start(info(), &o, EncoderKind::X264, 2_000_000).unwrap();
    let mut verdicts = Vec::new();
    let mut rates = Vec::new();
    loop {
        let pass = s.begin_pass();
        assert_eq!(pass.encoder, "libx264");
        rates.push(pass.plan.video_bitrate_bps);
        let v = s.record_size(1001);
        verdicts.push(v);
        if v != PassVerdict::Retry {
            break;
        }
        // even a raw rate above the current one is cut below it
        s.shrink_plan(9_000_000);
    }
    assert_eq!(verdicts, vec![PassVerdict::Retry, PassVerdict::Retry, PassVerdict::GiveUp]);
    assert_eq!(rates, vec![2_000_000, 1_999_999, 1_999_998]);
    assert_eq!(s.passes(), 3);
    let (sum, _) = s.finish(1001);
    assert!(!sum.fits);
    assert_eq!(sum.passes, 3);
}

#[test]
fn shrink_plan_follows_the_raw_rate_down_to_the_floor() {
    let o = opts(1000, 5);
    let mut s = CompressSession::start(info(), &o, EncoderKind::X264, 2_000_000).unwrap();
    s.begin_pass();
    s.shrink_plan(650_000);
    assert_eq!(s.plan().video_bitrate_bps, 650_000);
    assert_eq!(s.plan().height, 480);
    s.shrink_plan(10);
    assert_eq!(s.plan().video_bitrate_bps, MIN_VIDEO_BPS);
    s.shrink_plan(5_000_000);
    assert_eq!(s.plan().video_bitrate_bps, MIN_VIDEO_BPS);
    assert_eq!(s.passes(), 1);
    assert_eq!(s.options(), o);
    assert_eq!(s.encoder(), EncoderKind::X264);
    assert_eq!(s.info().width, 2560);
}

#[test]
fn zero_max_passes_allows_no_pass() {
    assert!(matches!(CompressSession::start(info(), &opts(1000, 0), EncoderKind::Nvenc, 1), Err(NoPassAllowed)));
}

#[test]
fn one_pass_limit() {
    let mut s = CompressSession::start(info(), &opts(1000, 1), EncoderKind::OpenH264, 1).unwrap();
    assert!(s.may_begin());
    let pass = s.begin_pass();
    assert_eq!((pass.pass, pass.encoder.as_str()), (1, "libopenh264"));
    assert!(!s.may_begin());
    assert_eq!(s.record_size(5000), PassVerdict::GiveUp);
    assert_eq!(s.record_size(1000), PassVerdict::Fits);
}

#[test]
fn fits_exactly_at_the_ceiling() {
    let mut s = CompressSession::start(info(), &opts(u64::MAX, 1), EncoderKind::X264, 1).unwrap();
    s.begin_pass();
    assert_eq!(s.record_size(u64::MAX), PassVerdict::Fits);
    let mut t = CompressSession::start(info(), &opts(0, 2), EncoderKind::X264, 1).unwrap();
    t.begin_pass();
    assert_eq!(t.record_size(0), PassVerdict::Fits);
    assert_eq!(t.record_size(1), PassVerdict::Retry);
}
