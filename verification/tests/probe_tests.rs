use squeeze::probe::{media_info_from_streams, ProbeError, StreamFacts, StreamKind};

fn video(width: i32, height: i32, guessed: Option<(i32, i32)>, avg: (i32, i32), decoder: Option<&str>) -> StreamFacts {
    StreamFacts {
        kind: StreamKind::Video,
        width,
        height,
        guessed_rate: guessed,
        avg_rate: avg,
        decoder_name: decoder.map(|s| s.to_string()),
        bit_rate: 0,
    }
}

fn audio(bit_rate: i64) -> StreamFacts {
    StreamFacts {
        kind: StreamKind::Audio,
        width: 0,
        height: 0,
        guessed_rate: None,
        avg_rate: (0, 0),
        decoder_name: Some("aac".to_string()),
        bit_rate,
    }
}

fn other() -> StreamFacts {
    StreamFacts {
        kind: StreamKind::Other,
        width: 7,
        height: 7,
        guessed_rate: Some((5, 1)),
        avg_rate: (5, 1),
        decoder_name: None,
        bit_rate: 99,
    }
}

#[test]
fn typical_shadowplay_capture() {
    let streams = vec![video(2560, 1440, Some((60, 1)), (60, 1), Some("h264")), audio(192_000)];
    let info = media_info_from_streams(125_500_000, &streams).unwrap();
    assert_eq!(info.duration_us, 125_500_000);
    assert_eq!((info.width, info.height), (2560, 1440));
    assert_eq!((info.fps_num, info.fps_den), (60, 1));
    assert!(info.has_audio);
    assert_eq!(info.audio_bitrate_bps, 192_000);
    assert_eq!(info.video_codec, "h264");
}

#[test]
fn no_video_stream_is_an_error_before_duration() {
    let streams = vec![audio(128_000), other()];
    assert_eq!(media_info_from_streams(0, &streams).unwrap_err(), ProbeError::NoVideoStream);
    assert_eq!(media_info_from_streams(10, &streams).unwrap_err(), ProbeError::NoVideoStream);
    assert_eq!(media_info_from_streams(10, &vec![]).unwrap_err(), ProbeError::NoVideoStream);
}

#[test]
fn missing_duration_is_an_error() {
    let streams = vec![video(1920, 1080, None, (30, 1), None)];
    assert_eq!(media_info_from_streams(0, &streams).unwrap_err(), ProbeError::NoDuration);
    assert_eq!(media_info_from_streams(-1, &streams).unwrap_err(), ProbeError::NoDuration);
    assert!(media_info_from_streams(1, &streams).is_ok());
}

#[test]
fn frame_rate_sources_in_order() {
    let g = media_info_from_streams(1, &vec![video(1, 1, Some((60000, 1001)), (30, 1), None)]).unwrap();
    assert_eq!((g.fps_num, g.fps_den), (60000, 1001));
    let a = media_info_from_streams(1, &vec![video(1, 1, Some((0, 1)), (25, 1), None)]).unwrap();
    assert_eq!((a.fps_num, a.fps_den), (25, 1));
    let a2 = media_info_from_streams(1, &vec![video(1, 1, Some((24, 0)), (50, 2), None)]).unwrap();
    assert_eq!((a2.fps_num, a2.fps_den), (50, 2));
    let f = media_info_from_streams(1, &vec![video(1, 1, None, (0, 0), None)]).unwrap();
    assert_eq!((f.fps_num, f.fps_den), (30, 1));
    let f2 = media_info_from_streams(1, &vec![video(1, 1, Some((-1, -1)), (12, -5), None)]).unwrap();
    assert_eq!((f2.fps_num, f2.fps_den), (30, 1));
}

#[test]
fn first_streams_win() {
    let streams = vec![
        other(),
        audio(0),
        video(1280, 720, None, (30, 1), Some("hevc")),
        audio(96_000),
        video(640, 360, None, (60, 1), Some("h264")),
    ];
    let info = media_info_from_streams(5, &streams).unwrap();
    assert_eq!((info.width, info.height, info.fps_num), (1280, 720, 30));
    assert_eq!(info.video_codec, "hevc");
    assert!(info.has_audio);
    // the first audio stream records no bitrate; later ones are not consulted
    assert_eq!(info.audio_bitrate_bps, 0);
}

#[test]
fn no_audio_and_no_decoder() {
    let info = media_info_from_streams(5, &vec![video(1920, 1080, None, (30, 1), None)]).unwrap();
    assert!(!info.has_audio);
    assert_eq!(info.audio_bitrate_bps, 0);
    assert_eq!(info.video_codec, "");
}
