//! What an input file tells the planner: the facts read from its container and
//! streams, reduced to a [`MediaInfo`].

use vstd::prelude::*;

verus! {

/// Frame rate assumed when a video stream records none (CFR normalization
/// still needs a target rate).
pub const FALLBACK_FPS_NUM: i32 = 30;

/// The handful of facts needed about an input to plan an encode.
#[derive(Clone, Debug)]
pub struct MediaInfo {
    /// Container duration in microseconds (FFmpeg's `AV_TIME_BASE` units).
    pub duration_us: i64,
    pub width: i32,
    pub height: i32,
    /// Nominal frame rate as a rational (e.g. 60000/1001 for 59.94).
    pub fps_num: i32,
    pub fps_den: i32,
    pub has_audio: bool,
    /// Audio bitrate in bits/s, or 0 if the container didn't record it.
    pub audio_bitrate_bps: i64,
    pub video_codec: String,
}

/// The media type of a stream.
#[derive(Clone, Copy, Debug, PartialEq, Eq, Structural)]
pub enum StreamKind {
    Video,
    Audio,
    Other,
}

/// What the container records about one stream.
#[derive(Debug)]
pub struct StreamFacts {
    pub kind: StreamKind,
    pub width: i32,
    pub height: i32,
    /// The demuxer's best guess at the frame rate, if it has one.
    pub guessed_rate: Option<(i32, i32)>,
    /// The average frame rate the container records (num, den).
    pub avg_rate: (i32, i32),
    /// Name of the decoder FFmpeg would use for this stream, if it has one.
    pub decoder_name: Option<String>,
    /// Bitrate in bits/s as recorded (0 or negative when unknown).
    pub bit_rate: i64,
}

/// Why an input cannot be planned for.
#[derive(Clone, Copy, Debug, PartialEq, Eq, Structural)]
pub enum ProbeError {
    /// The input has no video stream.
    NoVideoStream,
    /// The container records no positive duration (required for size targeting).
    NoDuration,
}

// ---------------------------------------------------------------------------
// Specifications
// ---------------------------------------------------------------------------

/// Index of the first stream of `kind` at or after `from`.
pub open spec fn first_of_kind(s: Seq<StreamFacts>, kind: StreamKind, from: int) -> Option<int>
    decreases s.len() - from,
{
    if from < 0 || from >= s.len() {
        None
    } else if s[from].kind == kind {
        Some(from)
    } else {
        first_of_kind(s, kind, from + 1)
    }
}

pub open spec fn rate_is_positive(r: (i32, i32)) -> bool {
    r.0 > 0 && r.1 > 0
}

/// A video stream's nominal frame rate: the guessed rate when positive, else
/// the recorded average when positive, else 30/1.
pub open spec fn stream_frame_rate(st: StreamFacts) -> (i32, i32) {
    if st.guessed_rate is Some && rate_is_positive(st.guessed_rate->0) {
        st.guessed_rate->0
    } else if rate_is_positive(st.avg_rate) {
        st.avg_rate
    } else {
        (FALLBACK_FPS_NUM, 1)
    }
}

/// The error, if any, for a container of the given duration and streams:
/// a missing video stream first, then a non-positive duration.
pub open spec fn probe_error(duration_us: i64, s: Seq<StreamFacts>) -> Option<ProbeError> {
    if first_of_kind(s, StreamKind::Video, 0) is None {
        Some(ProbeError::NoVideoStream)
    } else if duration_us <= 0 {
        Some(ProbeError::NoDuration)
    } else {
        None
    }
}

/// `info` is what the first video stream and the first audio stream of `s`
/// say, for a container of `duration_us` microseconds.
pub open spec fn describes(info: MediaInfo, duration_us: i64, s: Seq<StreamFacts>) -> bool {
    let v = first_of_kind(s, StreamKind::Video, 0)->0;
    let a = first_of_kind(s, StreamKind::Audio, 0);
    let rate = stream_frame_rate(s[v]);
    &&& info.duration_us == duration_us
    &&& info.width == s[v].width
    &&& info.height == s[v].height
    &&& info.fps_num == rate.0
    &&& info.fps_den == rate.1
    &&& info.has_audio == (a is Some)
    &&& info.audio_bitrate_bps == (if a is Some && s[a->0].bit_rate > 0 { s[a->0].bit_rate } else { 0 })
    &&& info.video_codec@ == (match s[v].decoder_name {
        Some(n) => n@,
        None => Seq::<char>::empty(),
    })
}

// ---------------------------------------------------------------------------
// Proofs about the search
// ---------------------------------------------------------------------------

proof fn lemma_first_of_kind_found(s: Seq<StreamFacts>, kind: StreamKind, from: int)
    ensures
        first_of_kind(s, kind, from) matches Some(i) ==> from <= i < s.len() && s[i].kind == kind,
    decreases s.len() - from,
{
    if from >= 0 && from < s.len() && s[from].kind != kind {
        lemma_first_of_kind_found(s, kind, from + 1);
    }
}

/// The search finds exactly the first stream of the kind: a stream of that
/// kind with none before it.
pub proof fn lemma_first_of_kind_is_first(s: Seq<StreamFacts>, kind: StreamKind, v: int)
    ensures
        first_of_kind(s, kind, 0) == Some(v) <==> (0 <= v < s.len() && s[v].kind == kind
            && forall|j: int| 0 <= j < v ==> (#[trigger] s[j]).kind != kind),
        first_of_kind(s, kind, 0) is None <==> forall|j: int| 0 <= j < s.len() ==> (#[trigger] s[j]).kind != kind,
{
    lemma_first_of_kind_from(s, kind, 0, v);
}

proof fn lemma_first_of_kind_from(s: Seq<StreamFacts>, kind: StreamKind, from: int, v: int)
    requires
        0 <= from,
    ensures
        first_of_kind(s, kind, from) == Some(v) <==> (from <= v < s.len() && s[v].kind == kind
            && forall|j: int| from <= j < v ==> (#[trigger] s[j]).kind != kind),
        first_of_kind(s, kind, from) is None <==> forall|j: int| from <= j < s.len() ==> (#[trigger] s[j]).kind != kind,
    decreases s.len() - from,
{
    if from < s.len() {
        lemma_first_of_kind_from(s, kind, from + 1, v);
    }
}

/// A clip without video is refused whatever its duration; a clip with video
/// but no positive duration is refused too.
pub proof fn lemma_probe_refusals(duration_us: i64, s: Seq<StreamFacts>)
    ensures
        (forall|j: int| 0 <= j < s.len() ==> (#[trigger] s[j]).kind != StreamKind::Video)
            ==> probe_error(duration_us, s) == Some(ProbeError::NoVideoStream),
        (exists|j: int| 0 <= j < s.len() && (#[trigger] s[j]).kind == StreamKind::Video) && duration_us <= 0
            ==> probe_error(duration_us, s) == Some(ProbeError::NoDuration),
        (exists|j: int| 0 <= j < s.len() && (#[trigger] s[j]).kind == StreamKind::Video) && duration_us > 0
            ==> probe_error(duration_us, s) is None,
{
    lemma_first_of_kind_from(s, StreamKind::Video, 0, 0);
}

/// A successful probe reports the geometry of a video stream with no video
/// stream before it, and its frame rate: the demuxer's guess when that is
/// positive, else the recorded average when positive, else 30/1.
pub proof fn lemma_probe_video(info: MediaInfo, duration_us: i64, s: Seq<StreamFacts>)
    requires
        probe_error(duration_us, s) is None,
        describes(info, duration_us, s),
    ensures
        info.duration_us == duration_us,
        exists|v: int| {
            &&& 0 <= v < s.len()
            &&& (#[trigger] s[v]).kind == StreamKind::Video
            &&& (forall|j: int| 0 <= j < v ==> (#[trigger] s[j]).kind != StreamKind::Video)
            &&& info.width == s[v].width && info.height == s[v].height
            &&& info.video_codec@ == (if s[v].decoder_name is Some { (s[v].decoder_name->0)@ } else { Seq::<char>::empty() })
            &&& (s[v].guessed_rate is Some && (s[v].guessed_rate->0).0 > 0 && (s[v].guessed_rate->0).1 > 0
                ==> info.fps_num == (s[v].guessed_rate->0).0 && info.fps_den == (s[v].guessed_rate->0).1)
            &&& (!(s[v].guessed_rate is Some && (s[v].guessed_rate->0).0 > 0 && (s[v].guessed_rate->0).1 > 0)
                && s[v].avg_rate.0 > 0 && s[v].avg_rate.1 > 0
                ==> info.fps_num == s[v].avg_rate.0 && info.fps_den == s[v].avg_rate.1)
            &&& (!(s[v].guessed_rate is Some && (s[v].guessed_rate->0).0 > 0 && (s[v].guessed_rate->0).1 > 0)
                && !(s[v].avg_rate.0 > 0 && s[v].avg_rate.1 > 0)
                ==> info.fps_num == 30 && info.fps_den == 1)
        },
{
    let v = first_of_kind(s, StreamKind::Video, 0)->0;
    lemma_first_of_kind_from(s, StreamKind::Video, 0, v);
    assert(s[v].kind == StreamKind::Video);
}

/// A successful probe reports audio exactly when some stream is audio, with
/// the bitrate the first audio stream records (0 when it records none).
pub proof fn lemma_probe_audio(info: MediaInfo, duration_us: i64, s: Seq<StreamFacts>)
    requires
        probe_error(duration_us, s) is None,
        describes(info, duration_us, s),
    ensures
        info.has_audio == exists|j: int| 0 <= j < s.len() && (#[trigger] s[j]).kind == StreamKind::Audio,
        forall|a: int| 0 <= a < s.len() && (#[trigger] s[a]).kind == StreamKind::Audio
            && (forall|j: int| 0 <= j < a ==> (#[trigger] s[j]).kind != StreamKind::Audio)
            ==> info.audio_bitrate_bps == (if s[a].bit_rate > 0 { s[a].bit_rate } else { 0 }),
{
    let fa = first_of_kind(s, StreamKind::Audio, 0);
    lemma_first_of_kind_from(s, StreamKind::Audio, 0, 0);
    if fa is Some {
        lemma_first_of_kind_from(s, StreamKind::Audio, 0, fa->0);
        assert(s[fa->0].kind == StreamKind::Audio);
    }
    assert forall|a: int| 0 <= a < s.len() && (#[trigger] s[a]).kind == StreamKind::Audio
        && (forall|j: int| 0 <= j < a ==> (#[trigger] s[j]).kind != StreamKind::Audio)
        implies info.audio_bitrate_bps == (if s[a].bit_rate > 0 { s[a].bit_rate } else { 0 }) by {
        lemma_first_of_kind_from(s, StreamKind::Audio, 0, a);
    }
}

// ---------------------------------------------------------------------------
// Executable functions
// ---------------------------------------------------------------------------

fn stream_rate(st: &StreamFacts) -> (r: (i32, i32))
    ensures
        r == stream_frame_rate(*st),
        r.0 > 0 && r.1 > 0,
{
    if let Some(fr) = st.guessed_rate {
        if fr.0 > 0 && fr.1 > 0 {
            return fr;
        }
    }
    if st.avg_rate.0 > 0 && st.avg_rate.1 > 0 {
        return st.avg_rate;
    }
    (FALLBACK_FPS_NUM, 1)
}

/// Reduce a container's duration and stream list to the facts the planner
/// needs: geometry, frame rate and decoder of the first video stream, presence
/// and bitrate of the first audio stream.
pub fn media_info_from_streams(duration_us: i64, streams: &Vec<StreamFacts>) -> (r: Result<MediaInfo, ProbeError>)
    ensures
        match r {
            Ok(info) => probe_error(duration_us, streams@) is None && describes(info, duration_us, streams@),
            Err(e) => probe_error(duration_us, streams@) == Some(e),
        },
        r matches Ok(info) ==> info.fps_num > 0 && info.fps_den > 0 && info.duration_us > 0,
{
    let mut video: Option<usize> = None;
    let mut audio: Option<usize> = None;
    let mut i: usize = 0;
    while i < streams.len()
        invariant
            i <= streams.len(),
            first_of_kind(streams@, StreamKind::Video, 0) == (match video {
                Some(v) => Some(v as int),
                None => first_of_kind(streams@, StreamKind::Video, i as int),
            }),
            first_of_kind(streams@, StreamKind::Audio, 0) == (match audio {
                Some(a) => Some(a as int),
                None => first_of_kind(streams@, StreamKind::Audio, i as int),
            }),
            video matches Some(v) ==> v < i,
            audio matches Some(a) ==> a < i,
        decreases streams.len() - i,
    {
        let kind = streams[i].kind;
        if kind == StreamKind::Video && video.is_none() {
            video = Some(i);
        } else if kind == StreamKind::Audio && audio.is_none() {
            audio = Some(i);
        }
        i += 1;
    }
    proof {
        lemma_first_of_kind_found(streams@, StreamKind::Video, 0);
        lemma_first_of_kind_found(streams@, StreamKind::Audio, 0);
    }
    let v = match video {
        Some(v) => v,
        None => {
            return Err(ProbeError::NoVideoStream);
        },
    };
    if duration_us <= 0 {
        return Err(ProbeError::NoDuration);
    }
    let vs = &streams[v];
    let (fps_num, fps_den) = stream_rate(vs);
    let (has_audio, audio_bitrate_bps) = match audio {
        Some(a) => (true, if streams[a].bit_rate > 0 { streams[a].bit_rate } else { 0 }),
        None => (false, 0),
    };
    let video_codec = match &vs.decoder_name {
        Some(n) => n.clone(),
        None => String::new(),
    };
    Ok(MediaInfo {
        duration_us,
        width: vs.width,
        height: vs.height,
        fps_num,
        fps_den,
        has_audio,
        audio_bitrate_bps,
        video_codec,
    })
}

} // verus!
