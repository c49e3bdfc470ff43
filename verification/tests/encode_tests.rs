use squeeze::encode::{
    buffer_source_args, choose_working_encoder, encoder_candidates, EncoderError, encoder_options, encoder_settings, map_streams,
    resolve_encoder, video_filter_spec, Encoder, EncoderAvailability, EncoderKind,
    NoEncoderAvailable, NoVideoStream, PacketRoute,
};
use squeeze::plan::{AudioAction, EncodePlan};
use squeeze::probe::StreamKind;

fn avail(nvenc: bool, x264: bool, openh264: bool) -> EncoderAvailability {
    EncoderAvailability { nvenc, x264, openh264 }
}

fn plan(width: i32, height: i32, fps_num: i32, fps_den: i32, bps: i64) -> EncodePlan {
    EncodePlan { width, height, fps_num, fps_den, video_bitrate_bps: bps, audio: AudioAction::Copy }
}

#[test]
fn encoder_names() {
    assert_eq!(EncoderKind::Nvenc.name(), "h264_nvenc");
    assert_eq!(EncoderKind::X264.name(), "libx264");
    assert_eq!(EncoderKind::OpenH264.name(), "libopenh264");
    assert_eq!(Encoder::default(), Encoder::Auto);
}

#[test]
fn auto_prefers_nvenc_then_x264_then_openh264() {
    assert_eq!(encoder_candidates(Encoder::Auto), vec![EncoderKind::Nvenc, EncoderKind::X264, EncoderKind::OpenH264]);
    assert_eq!(resolve_encoder(Encoder::Auto, &avail(true, true, true)), Ok(EncoderKind::Nvenc));
    assert_eq!(resolve_encoder(Encoder::Auto, &avail(false, true, true)), Ok(EncoderKind::X264));
    assert_eq!(resolve_encoder(Encoder::Auto, &avail(false, false, true)), Ok(EncoderKind::OpenH264));
    assert_eq!(resolve_encoder(Encoder::Auto, &avail(false, false, false)), Err(NoEncoderAvailable));
}

#[test]
fn explicit_choice_never_falls_back() {
    assert_eq!(resolve_encoder(Encoder::Nvenc, &avail(false, true, true)), Err(NoEncoderAvailable));
    assert_eq!(resolve_encoder(Encoder::X264, &avail(true, false, true)), Err(NoEncoderAvailable));
    assert_eq!(resolve_encoder(Encoder::OpenH264, &avail(true, true, false)), Err(NoEncoderAvailable));
    assert_eq!(resolve_encoder(Encoder::X264, &avail(true, true, true)), Ok(EncoderKind::X264));
    assert_eq!(resolve_encoder(Encoder::OpenH264, &avail(false, false, true)), Ok(EncoderKind::OpenH264));
    assert_eq!(resolve_encoder(Encoder::Nvenc, &avail(true, false, false)), Ok(EncoderKind::Nvenc));
}

#[test]
fn encoder_option_tables() {
    let nv = encoder_options(EncoderKind::Nvenc).unwrap();
    assert_eq!(nv.len(), 9);
    assert_eq!(nv[0], ("preset", "p5"));
    assert_eq!(nv[3], ("multipass", "fullres"));
    assert_eq!(nv[8], ("rc-lookahead", "20"));
    assert_eq!(encoder_options(EncoderKind::X264).unwrap(), vec![("preset", "medium"), ("profile", "high")]);
    assert!(encoder_options(EncoderKind::OpenH264).is_none());
}

#[test]
fn settings_for_a_30fps_plan() {
    let s = encoder_settings(&plan(1280, 720, 30, 1, 1_000_000), EncoderKind::Nvenc);
    assert_eq!((s.width, s.height), (1280, 720));
    assert_eq!((s.time_base_num, s.time_base_den), (1, 30));
    assert_eq!((s.framerate_num, s.framerate_den), (30, 1));
    assert_eq!(s.bit_rate, 1_000_000);
    assert_eq!(s.gop_size, 60);
    assert_eq!(s.max_b_frames, 3);
    assert_eq!(s.rc_buffer_size, 2_000_000);
}

#[test]
fn gop_is_two_seconds_rounded_half_away() {
    assert_eq!(encoder_settings(&plan(2, 2, 60000, 1001, 1), EncoderKind::X264).gop_size, 120);
    assert_eq!(encoder_settings(&plan(2, 2, 30000, 1001, 1), EncoderKind::X264).gop_size, 60);
    // 2 * 5/4 = 2.5 -> 3
    assert_eq!(encoder_settings(&plan(2, 2, 5, 4, 1), EncoderKind::X264).gop_size, 3);
    // 2 * 1/8 = 0.25 -> 0 -> at least 1
    assert_eq!(encoder_settings(&plan(2, 2, 1, 8, 1), EncoderKind::X264).gop_size, 1);
    assert_eq!(encoder_settings(&plan(2, 2, i32::MAX, 1, 1), EncoderKind::X264).gop_size, i32::MAX);
    assert_eq!(encoder_settings(&plan(2, 2, 25, 0, 1), EncoderKind::X264).gop_size, 50);
}

#[test]
fn openh264_gets_no_b_frames() {
    assert_eq!(encoder_settings(&plan(2, 2, 30, 1, 1), EncoderKind::OpenH264).max_b_frames, 0);
    assert_eq!(encoder_settings(&plan(2, 2, 30, 1, 1), EncoderKind::X264).max_b_frames, 3);
}

#[test]
fn rc_buffer_saturates() {
    assert_eq!(encoder_settings(&plan(2, 2, 30, 1, 1 << 30), EncoderKind::X264).rc_buffer_size, i32::MAX);
    assert_eq!(encoder_settings(&plan(2, 2, 30, 1, (1 << 30) - 1), EncoderKind::X264).rc_buffer_size, i32::MAX - 1);
    assert_eq!(encoder_settings(&plan(2, 2, 30, 1, i64::MIN), EncoderKind::X264).rc_buffer_size, i32::MIN);
    assert_eq!(encoder_settings(&plan(2, 2, 30, 1, -5), EncoderKind::X264).rc_buffer_size, -10);
}

#[test]
fn filter_spec_text() {
    assert_eq!(
        video_filter_spec(&plan(1280, 720, 30000, 1001, 1)),
        "scale=1280:720:flags=bicubic,fps=30000/1001,format=pix_fmts=yuv420p"
    );
    assert_eq!(
        video_filter_spec(&plan(852, 480, 30, 0, 1)),
        "scale=852:480:flags=bicubic,fps=30/1,format=pix_fmts=yuv420p"
    );
    assert_eq!(
        video_filter_spec(&plan(-2, 0, i32::MIN, -4, 1)),
        "scale=-2:0:flags=bicubic,fps=-2147483648/1,format=pix_fmts=yuv420p"
    );
}

#[test]
fn buffer_source_text() {
    assert_eq!(
        buffer_source_args(2560, 1440, 0, 1, 60000, 1, 1),
        "video_size=2560x1440:pix_fmt=0:time_base=1/60000:pixel_aspect=1/1"
    );
    assert_eq!(
        buffer_source_args(1, 2, -1, 3, 4, 0, 1),
        "video_size=1x2:pix_fmt=-1:time_base=3/4:pixel_aspect=0/1"
    );
}

#[test]
fn streams_and_packet_routes() {
    let kinds = vec![StreamKind::Other, StreamKind::Audio, StreamKind::Video, StreamKind::Audio, StreamKind::Video];
    let m = map_streams(&kinds, true).unwrap();
    assert_eq!((m.video_in, m.audio_in), (2, Some(1)));
    assert!(m.has_audio_out());
    assert_eq!(m.route_packet(2), PacketRoute::Decode);
    assert_eq!(m.route_packet(1), PacketRoute::CopyAudio);
    assert_eq!(m.route_packet(3), PacketRoute::Skip);
    assert_eq!(m.route_packet(4), PacketRoute::Skip);
    assert_eq!(m.route_packet(0), PacketRoute::Skip);
    assert_eq!(m.route_packet(usize::MAX), PacketRoute::Skip);

    let dropped = map_streams(&kinds, false).unwrap();
    assert!(!dropped.has_audio_out());
    assert_eq!(dropped.route_packet(1), PacketRoute::Skip);
    assert_eq!(dropped.route_packet(2), PacketRoute::Decode);

    let silent = map_streams(&vec![StreamKind::Video], true).unwrap();
    assert_eq!(silent.audio_in, None);
    assert!(!silent.has_audio_out());

    assert_eq!(map_streams(&vec![StreamKind::Audio], true), Err(NoVideoStream));
}

#[test]
fn filter_matches_encoder_settings() {
    for p in [plan(1920, 1080, 60000, 1001, 5_000_000), plan(852, 480, 30, 0, 120_000), plan(2, 2, 1, -7, 1)] {
        let s = encoder_settings(&p, EncoderKind::Nvenc);
        let expected = format!(
            "scale={}:{}:flags=bicubic,fps={}/{},format=pix_fmts=yuv420p",
            s.width, s.height, s.framerate_num, s.framerate_den
        );
        assert_eq!(video_filter_spec(&p), expected);
        assert_eq!((s.time_base_num, s.time_base_den), (s.framerate_den, s.framerate_num));
    }
}

#[test]
fn auto_falls_back_past_an_encoder_that_does_not_open() {
    let found = avail(true, true, true);
    assert_eq!(choose_working_encoder(Encoder::Auto, &found, &avail(false, true, true)), Ok(EncoderKind::X264));
    assert_eq!(choose_working_encoder(Encoder::Auto, &found, &avail(false, false, true)), Ok(EncoderKind::OpenH264));
    assert_eq!(choose_working_encoder(Encoder::Auto, &found, &avail(true, true, true)), Ok(EncoderKind::Nvenc));
    assert_eq!(
        choose_working_encoder(Encoder::Auto, &found, &avail(false, false, false)),
        Err(EncoderError::CannotOpen(EncoderKind::Nvenc))
    );
    // opening alone is not enough: the build must provide it
    assert_eq!(
        choose_working_encoder(Encoder::Auto, &avail(false, false, false), &avail(true, true, true)),
        Err(EncoderError::NoneAvailable)
    );
    assert_eq!(
        choose_working_encoder(Encoder::Auto, &avail(true, false, true), &avail(false, true, true)),
        Ok(EncoderKind::OpenH264)
    );
}

#[test]
fn explicit_choice_does_not_fall_back() {
    assert_eq!(
        choose_working_encoder(Encoder::Nvenc, &avail(true, true, true), &avail(false, true, true)),
        Err(EncoderError::CannotOpen(EncoderKind::Nvenc))
    );
    assert_eq!(
        choose_working_encoder(Encoder::X264, &avail(true, true, true), &avail(false, true, false)),
        Ok(EncoderKind::X264)
    );
}
