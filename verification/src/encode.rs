//! The decisions of one transcode pass: which H.264 encoder to use, how to set
//! it up for a plan, how the filter graph is spelled, and where each demuxed
//! packet goes.

use vstd::prelude::*;
use crate::plan::{EncodePlan, norm_den, round_div};
use crate::probe::StreamKind;
use crate::text::{append_decimal, decimal, lemma_decimal_has_no_nul};

verus! {

/// Which H.264 encoder to use. `Auto` prefers NVENC, then libx264, then
/// libopenh264, whichever the FFmpeg build provides.
#[derive(Clone, Copy, Debug, PartialEq, Eq, Structural)]
pub enum Encoder {
    Auto,
    Nvenc,
    X264,
    OpenH264,
}

impl Default for Encoder {
    fn default() -> (r: Self)
        ensures
            r == Encoder::Auto,
    {
        Encoder::Auto
    }
}

/// A concrete H.264 encoder implementation.
#[derive(Clone, Copy, Debug, PartialEq, Eq, Structural)]
pub enum EncoderKind {
    Nvenc,
    X264,
    OpenH264,
}

/// Which of the H.264 encoders the FFmpeg build provides, looked up by name.
#[derive(Clone, Copy, Debug, PartialEq, Eq, Structural)]
pub struct EncoderAvailability {
    pub nvenc: bool,
    pub x264: bool,
    pub openh264: bool,
}

/// No H.264 encoder of the requested kinds is available.
#[derive(Clone, Copy, Debug, PartialEq, Eq, Structural)]
pub struct NoEncoderAvailable;

/// The input has no video stream to transcode.
#[derive(Clone, Copy, Debug, PartialEq, Eq, Structural)]
pub struct NoVideoStream;

// ---------------------------------------------------------------------------
// Encoder choice
// ---------------------------------------------------------------------------

pub open spec fn spec_encoder_name(kind: EncoderKind) -> Seq<char> {
    match kind {
        EncoderKind::Nvenc => "h264_nvenc"@,
        EncoderKind::X264 => "libx264"@,
        EncoderKind::OpenH264 => "libopenh264"@,
    }
}

/// The encoders a choice may resolve to, in order of preference.
pub open spec fn spec_candidates(choice: Encoder) -> Seq<EncoderKind> {
    match choice {
        Encoder::Auto => seq![EncoderKind::Nvenc, EncoderKind::X264, EncoderKind::OpenH264],
        Encoder::Nvenc => seq![EncoderKind::Nvenc],
        Encoder::X264 => seq![EncoderKind::X264],
        Encoder::OpenH264 => seq![EncoderKind::OpenH264],
    }
}

impl EncoderAvailability {
    pub open spec fn has(self, kind: EncoderKind) -> bool {
        match kind {
            EncoderKind::Nvenc => self.nvenc,
            EncoderKind::X264 => self.x264,
            EncoderKind::OpenH264 => self.openh264,
        }
    }

    pub fn provides(&self, kind: EncoderKind) -> (r: bool)
        ensures
            r == self.has(kind),
    {
        match kind {
            EncoderKind::Nvenc => self.nvenc,
            EncoderKind::X264 => self.x264,
            EncoderKind::OpenH264 => self.openh264,
        }
    }
}

/// The first candidate at or after `from` that `avail` provides.
pub open spec fn first_available(c: Seq<EncoderKind>, avail: EncoderAvailability, from: int) -> Option<EncoderKind>
    decreases c.len() - from,
{
    if from < 0 || from >= c.len() {
        None
    } else if avail.has(c[from]) {
        Some(c[from])
    } else {
        first_available(c, avail, from + 1)
    }
}

impl EncoderKind {
    /// The FFmpeg encoder name.
    pub fn name(&self) -> (r: &'static str)
        ensures
            r@ == spec_encoder_name(*self),
    {
        match self {
            EncoderKind::Nvenc => "h264_nvenc",
            EncoderKind::X264 => "libx264",
            EncoderKind::OpenH264 => "libopenh264",
        }
    }
}

/// The encoders `choice` may resolve to, most preferred first.
pub fn encoder_candidates(choice: Encoder) -> (r: Vec<EncoderKind>)
    ensures
        r@ == spec_candidates(choice),
{
    match choice {
        Encoder::Auto => vec![EncoderKind::Nvenc, EncoderKind::X264, EncoderKind::OpenH264],
        Encoder::Nvenc => vec![EncoderKind::Nvenc],
        Encoder::X264 => vec![EncoderKind::X264],
        Encoder::OpenH264 => vec![EncoderKind::OpenH264],
    }
}

proof fn lemma_first_available_sound(c: Seq<EncoderKind>, avail: EncoderAvailability, from: int)
    requires
        0 <= from,
    ensures
        first_available(c, avail, from) matches Some(k) ==> avail.has(k) && c.contains(k),
        first_available(c, avail, from) is None ==> forall|j: int| from <= j < c.len() ==> !avail.has(#[trigger] c[j]),
    decreases c.len() - from,
{
    if from < c.len() {
        lemma_first_available_sound(c, avail, from + 1);
        if avail.has(c[from]) {
            assert(c.contains(c[from]));
        }
    }
}

/// Pick the first H.264 encoder the FFmpeg build provides for the requested
/// preference. (Whether it actually opens, e.g. NVENC needing a driver, is
/// found out when the pass runs.)
pub fn resolve_encoder(choice: Encoder, avail: &EncoderAvailability) -> (r: Result<EncoderKind, NoEncoderAvailable>)
    ensures
        match first_available(spec_candidates(choice), *avail, 0) {
            Some(k) => r == Ok::<EncoderKind, NoEncoderAvailable>(k),
            None => r is Err,
        },
        r matches Ok(k) ==> avail.has(k) && spec_candidates(choice).contains(k),
        r is Err ==> forall|k: EncoderKind| spec_candidates(choice).contains(k) ==> !avail.has(k),
{
    let candidates = encoder_candidates(choice);
    let mut i: usize = 0;
    while i < candidates.len()
        invariant
            candidates@ == spec_candidates(choice),
            i <= candidates.len(),
            first_available(candidates@, *avail, 0) == first_available(candidates@, *avail, i as int),
        decreases candidates.len() - i,
    {
        let kind = candidates[i];
        if avail.provides(kind) {
            proof {
                lemma_first_available_sound(candidates@, *avail, 0);
            }
            return Ok(kind);
        }
        i += 1;
    }
    proof {
        lemma_first_available_sound(candidates@, *avail, 0);
        assert forall|k: EncoderKind| spec_candidates(choice).contains(k) implies !avail.has(k) by {
            let j = choose|j: int| 0 <= j < candidates@.len() && candidates@[j] == k;
            assert(!avail.has(candidates@[j]));
        }
    }
    Err(NoEncoderAvailable)
}

/// Why no encoder can be used for a run.
#[derive(Clone, Copy, Debug, PartialEq, Eq, Structural)]
pub enum EncoderError {
    /// The FFmpeg build provides none of the candidates.
    NoneAvailable,
    /// The build provides some candidates but none of them opens (e.g. NVENC
    /// without a recent NVIDIA driver); the first provided one is named.
    CannotOpen(EncoderKind),
}

/// The encoders that are both provided and open.
pub open spec fn usable(found: EncoderAvailability, opens: EncoderAvailability) -> EncoderAvailability {
    EncoderAvailability {
        nvenc: found.nvenc && opens.nvenc,
        x264: found.x264 && opens.x264,
        openh264: found.openh264 && opens.openh264,
    }
}

/// Pick the encoder a run uses: the most preferred candidate of `choice` that
/// the build provides (`found`) and that opens (`opens`). A provided encoder
/// that fails to open is passed over for the next candidate, so `Auto` falls
/// back from NVENC to libx264 (then libopenh264) when no usable NVIDIA driver
/// is present; an explicit choice has no other candidate.
pub fn choose_working_encoder(
    choice: Encoder,
    found: &EncoderAvailability,
    opens: &EncoderAvailability,
) -> (r: Result<EncoderKind, EncoderError>)
    ensures
        match first_available(spec_candidates(choice), usable(*found, *opens), 0) {
            Some(k) => r == Ok::<EncoderKind, EncoderError>(k),
            None => match first_available(spec_candidates(choice), *found, 0) {
                None => r == Err::<EncoderKind, EncoderError>(EncoderError::NoneAvailable),
                Some(k) => r == Err::<EncoderKind, EncoderError>(EncoderError::CannotOpen(k)),
            },
        },
        r matches Ok(k) ==> found.has(k) && opens.has(k) && spec_candidates(choice).contains(k),
{
    let both = EncoderAvailability {
        nvenc: found.nvenc && opens.nvenc,
        x264: found.x264 && opens.x264,
        openh264: found.openh264 && opens.openh264,
    };
    match resolve_encoder(choice, &both) {
        Ok(k) => Ok(k),
        Err(_) => match resolve_encoder(choice, found) {
            Ok(k) => Err(EncoderError::CannotOpen(k)),
            Err(_) => Err(EncoderError::NoneAvailable),
        },
    }
}

/// `Auto` takes NVENC whenever it is available, libx264 when NVENC is not,
/// and libopenh264 only when neither is; an explicit choice yields that
/// encoder when available and an error otherwise.
pub proof fn lemma_encoder_preference(avail: EncoderAvailability)
    ensures
        avail.nvenc ==> first_available(spec_candidates(Encoder::Auto), avail, 0) == Some(EncoderKind::Nvenc),
        !avail.nvenc && avail.x264 ==> first_available(spec_candidates(Encoder::Auto), avail, 0) == Some(EncoderKind::X264),
        !avail.nvenc && !avail.x264 && avail.openh264 ==> first_available(spec_candidates(Encoder::Auto), avail, 0) == Some(EncoderKind::OpenH264),
        !avail.nvenc && !avail.x264 && !avail.openh264 ==> first_available(spec_candidates(Encoder::Auto), avail, 0) is None,
        first_available(spec_candidates(Encoder::Nvenc), avail, 0) == (if avail.nvenc { Some(EncoderKind::Nvenc) } else { None }),
        first_available(spec_candidates(Encoder::X264), avail, 0) == (if avail.x264 { Some(EncoderKind::X264) } else { None }),
        first_available(spec_candidates(Encoder::OpenH264), avail, 0) == (if avail.openh264 { Some(EncoderKind::OpenH264) } else { None }),
{
    let c = spec_candidates(Encoder::Auto);
    assert(c[0] == EncoderKind::Nvenc && c[1] == EncoderKind::X264 && c[2] == EncoderKind::OpenH264);
    assert(first_available(c, avail, 3) is None);
    assert(first_available(c, avail, 2) == (if avail.openh264 { Some(EncoderKind::OpenH264) } else { None }));
    assert(first_available(c, avail, 1) == (if avail.x264 { Some(EncoderKind::X264) } else { first_available(c, avail, 2) }));
    assert(first_available(spec_candidates(Encoder::Nvenc), avail, 1) is None);
    assert(first_available(spec_candidates(Encoder::X264), avail, 1) is None);
    assert(first_available(spec_candidates(Encoder::OpenH264), avail, 1) is None);
}

/// An encoder that the build provides but that does not open is passed over:
/// with NVENC unusable and libx264 provided and opening, `Auto` runs libx264;
/// an encoder is never chosen unless it both is provided and opens.
pub proof fn lemma_fallback_past_unopenable(choice: Encoder, found: EncoderAvailability, opens: EncoderAvailability)
    ensures
        !(found.nvenc && opens.nvenc) && found.x264 && opens.x264
            ==> first_available(spec_candidates(Encoder::Auto), usable(found, opens), 0) == Some(EncoderKind::X264),
        found.nvenc && opens.nvenc
            ==> first_available(spec_candidates(Encoder::Auto), usable(found, opens), 0) == Some(EncoderKind::Nvenc),
        first_available(spec_candidates(choice), usable(found, opens), 0) matches Some(k)
            ==> found.has(k) && opens.has(k),
{
    lemma_encoder_preference(usable(found, opens));
    lemma_first_available_sound(spec_candidates(choice), usable(found, opens), 0);
}

// ---------------------------------------------------------------------------
// Encoder setup
// ---------------------------------------------------------------------------

/// Private options handed to each encoder when it is opened.
pub open spec fn spec_encoder_options(kind: EncoderKind) -> Option<Seq<(Seq<char>, Seq<char>)>> {
    match kind {
        EncoderKind::Nvenc => Some(seq![
            ("preset"@, "p5"@),
            ("tune"@, "hq"@),
            ("rc"@, "vbr"@),
            ("multipass"@, "fullres"@),
            ("profile"@, "high"@),
            ("spatial-aq"@, "1"@),
            ("temporal-aq"@, "1"@),
            ("b_ref_mode"@, "middle"@),
            ("rc-lookahead"@, "20"@),
        ]),
        EncoderKind::X264 => Some(seq![("preset"@, "medium"@), ("profile"@, "high"@)]),
        EncoderKind::OpenH264 => None,
    }
}

pub open spec fn pairs_view(v: Seq<(&'static str, &'static str)>) -> Seq<(Seq<char>, Seq<char>)> {
    v.map_values(|p: (&'static str, &'static str)| (p.0@, p.1@))
}

/// NVENC: P5 high-quality VBR with full-resolution multipass, High profile,
/// spatial/temporal AQ; libx264: medium preset, High profile; OpenH264: none.
pub fn encoder_options(kind: EncoderKind) -> (r: Option<Vec<(&'static str, &'static str)>>)
    ensures
        match (r, spec_encoder_options(kind)) {
            (Some(v), Some(t)) => pairs_view(v@) == t,
            (None, None) => true,
            _ => false,
        },
{
    match kind {
        EncoderKind::Nvenc => {
            let v = vec![
                ("preset", "p5"),
                ("tune", "hq"),
                ("rc", "vbr"),
                ("multipass", "fullres"),
                ("profile", "high"),
                ("spatial-aq", "1"),
                ("temporal-aq", "1"),
                ("b_ref_mode", "middle"),
                ("rc-lookahead", "20"),
            ];
            assert(pairs_view(v@) =~= spec_encoder_options(kind)->0);
            Some(v)
        },
        EncoderKind::X264 => {
            let v = vec![("preset", "medium"), ("profile", "high")];
            assert(pairs_view(v@) =~= spec_encoder_options(kind)->0);
            Some(v)
        },
        EncoderKind::OpenH264 => None,
    }
}

/// The option list holds the entry `key = value`.
pub open spec fn has_option(t: Seq<(Seq<char>, Seq<char>)>, key: Seq<char>, value: Seq<char>) -> bool {
    exists|i: int| 0 <= i < t.len() && t[i] == (key, value)
}

/// Every entry for `key` in the option list has `value`.
pub open spec fn only_value(t: Seq<(Seq<char>, Seq<char>)>, key: Seq<char>, value: Seq<char>) -> bool {
    forall|i: int| 0 <= i < t.len() && (#[trigger] t[i]).0 == key ==> t[i].1 == value
}

/// Both encoders that take options are asked for the High profile and nothing
/// else; NVENC runs VBR rate control with full-resolution multipass at preset
/// P5, libx264 at preset medium; OpenH264 gets no options.
pub proof fn lemma_encoder_option_choices()
    ensures
        ({
            let nv = spec_encoder_options(EncoderKind::Nvenc)->0;
            &&& spec_encoder_options(EncoderKind::Nvenc) is Some
            &&& has_option(nv, "profile"@, "high"@) && only_value(nv, "profile"@, "high"@)
            &&& has_option(nv, "rc"@, "vbr"@) && only_value(nv, "rc"@, "vbr"@)
            &&& has_option(nv, "multipass"@, "fullres"@) && only_value(nv, "multipass"@, "fullres"@)
            &&& has_option(nv, "preset"@, "p5"@) && only_value(nv, "preset"@, "p5"@)
        }),
        ({
            let x = spec_encoder_options(EncoderKind::X264)->0;
            &&& spec_encoder_options(EncoderKind::X264) is Some
            &&& has_option(x, "profile"@, "high"@) && only_value(x, "profile"@, "high"@)
            &&& has_option(x, "preset"@, "medium"@) && only_value(x, "preset"@, "medium"@)
        }),
        spec_encoder_options(EncoderKind::OpenH264) is None,
{
    reveal_strlit("preset");
    reveal_strlit("p5");
    reveal_strlit("tune");
    reveal_strlit("hq");
    reveal_strlit("rc");
    reveal_strlit("vbr");
    reveal_strlit("multipass");
    reveal_strlit("fullres");
    reveal_strlit("profile");
    reveal_strlit("high");
    reveal_strlit("spatial-aq");
    reveal_strlit("1");
    reveal_strlit("temporal-aq");
    reveal_strlit("b_ref_mode");
    reveal_strlit("middle");
    reveal_strlit("rc-lookahead");
    reveal_strlit("20");
    reveal_strlit("medium");
    let nv = spec_encoder_options(EncoderKind::Nvenc)->0;
    assert(nv[0] == ("preset"@, "p5"@));
    assert("preset"@.len() == 6);
    assert(nv[1] == ("tune"@, "hq"@));
    assert("tune"@.len() == 4);
    assert(nv[2] == ("rc"@, "vbr"@));
    assert("rc"@.len() == 2);
    assert(nv[3] == ("multipass"@, "fullres"@));
    assert("multipass"@.len() == 9);
    assert(nv[4] == ("profile"@, "high"@));
    assert("profile"@.len() == 7);
    assert(nv[5] == ("spatial-aq"@, "1"@));
    assert("spatial-aq"@.len() == 10);
    assert(nv[6] == ("temporal-aq"@, "1"@));
    assert("temporal-aq"@.len() == 11);
    assert(nv[7] == ("b_ref_mode"@, "middle"@));
    assert("b_ref_mode"@.len() == 10);
    assert(nv[8] == ("rc-lookahead"@, "20"@));
    assert("rc-lookahead"@.len() == 12);
    assert forall|i: int| 0 <= i < nv.len() && (#[trigger] nv[i]).0 == "profile"@ implies nv[i].1 == "high"@ by {
        if i == 0 {} else if i == 1 {} else if i == 2 {} else if i == 3 {} else if i == 4 {} else if i == 5 {} else if i == 6 {} else if i == 7 {} else if i == 8 {}
    }
    assert forall|i: int| 0 <= i < nv.len() && (#[trigger] nv[i]).0 == "rc"@ implies nv[i].1 == "vbr"@ by {
        if i == 0 {} else if i == 1 {} else if i == 2 {} else if i == 3 {} else if i == 4 {} else if i == 5 {} else if i == 6 {} else if i == 7 {} else if i == 8 {}
    }
    assert forall|i: int| 0 <= i < nv.len() && (#[trigger] nv[i]).0 == "multipass"@ implies nv[i].1 == "fullres"@ by {
        if i == 0 {} else if i == 1 {} else if i == 2 {} else if i == 3 {} else if i == 4 {} else if i == 5 {} else if i == 6 {} else if i == 7 {} else if i == 8 {}
    }
    assert forall|i: int| 0 <= i < nv.len() && (#[trigger] nv[i]).0 == "preset"@ implies nv[i].1 == "p5"@ by {
        if i == 0 {} else if i == 1 {} else if i == 2 {} else if i == 3 {} else if i == 4 {} else if i == 5 {} else if i == 6 {} else if i == 7 {} else if i == 8 {}
    }
    let x = spec_encoder_options(EncoderKind::X264)->0;
    assert(x[0] == ("preset"@, "medium"@));
    assert(x[1] == ("profile"@, "high"@));
    assert forall|i: int| 0 <= i < x.len() && (#[trigger] x[i]).0 == "profile"@ implies x[i].1 == "high"@ by {
        if i == 0 {} else if i == 1 {}
    }
    assert forall|i: int| 0 <= i < x.len() && (#[trigger] x[i]).0 == "preset"@ implies x[i].1 == "medium"@ by {
        if i == 0 {} else if i == 1 {}
    }
}

/// The encoder context settings a plan fixes.
#[derive(Clone, Copy, Debug, PartialEq, Eq, Structural)]
pub struct EncoderSettings {
    pub width: i32,
    pub height: i32,
    /// `1 / fps` as (num, den): one tick per output frame, for true CFR.
    pub time_base_num: i32,
    pub time_base_den: i32,
    /// `fps` as (num, den).
    pub framerate_num: i32,
    pub framerate_den: i32,
    pub bit_rate: i64,
    /// Keyframe interval: two seconds of frames, at least 1.
    pub gop_size: i32,
    pub max_b_frames: i32,
    /// Rate-control buffer: two seconds' worth of the target bitrate.
    pub rc_buffer_size: i32,
}

pub open spec fn clamp_i32(x: int) -> int {
    if x < i32::MIN { i32::MIN as int } else if x > i32::MAX { i32::MAX as int } else { x }
}

/// Two seconds of frames at `num / max(den, 1)` fps, rounded, saturated to
/// `i32`, at least 1.
pub open spec fn spec_gop_size(num: int, den: int) -> int {
    let g = clamp_i32(round_div(2 * num, norm_den(den)));
    if g < 1 { 1 } else { g }
}

pub open spec fn spec_encoder_settings(plan: EncodePlan, kind: EncoderKind) -> EncoderSettings {
    EncoderSettings {
        width: plan.width,
        height: plan.height,
        time_base_num: norm_den(plan.fps_den as int) as i32,
        time_base_den: plan.fps_num,
        framerate_num: plan.fps_num,
        framerate_den: norm_den(plan.fps_den as int) as i32,
        bit_rate: plan.video_bitrate_bps,
        gop_size: spec_gop_size(plan.fps_num as int, plan.fps_den as int) as i32,
        max_b_frames: if kind == EncoderKind::OpenH264 { 0 } else { 3 },
        rc_buffer_size: clamp_i32(2 * plan.video_bitrate_bps) as i32,
    }
}

/// Encoder settings for a plan. Constrained Baseline (OpenH264) gets no
/// B-frames; the others get 3.
pub fn encoder_settings(plan: &EncodePlan, kind: EncoderKind) -> (r: EncoderSettings)
    ensures
        r == spec_encoder_settings(*plan, kind),
        r.gop_size >= 1,
        r.time_base_num >= 1,
        r.framerate_den >= 1,
        r.time_base_num == r.framerate_den && r.time_base_den == r.framerate_num,
        r.width == plan.width && r.height == plan.height,
{
    let den: i32 = if plan.fps_den < 1 { 1 } else { plan.fps_den };
    let two_num: i64 = 2 * (plan.fps_num as i64);
    let d: i64 = den as i64;
    let g: i64 = if two_num >= 0 {
        (2 * two_num + d) / (2 * d)
    } else {
        0 - ((0 - 2 * two_num + d) / (2 * d))
    };
    assert(g == round_div(2 * plan.fps_num, norm_den(plan.fps_den as int)));
    let g_clamped: i64 = if g < i32::MIN as i64 {
        i32::MIN as i64
    } else if g > i32::MAX as i64 {
        i32::MAX as i64
    } else {
        g
    };
    let gop_size: i32 = if g_clamped < 1 { 1 } else { g_clamped as i32 };
    let bps = plan.video_bitrate_bps;
    let rc_buffer_size: i32 = if bps >= 0x4000_0000 {
        i32::MAX
    } else if bps <= -0x4000_0000 {
        i32::MIN
    } else {
        (2 * bps) as i32
    };
    let max_b_frames: i32 = match kind {
        EncoderKind::OpenH264 => 0,
        _ => 3,
    };
    EncoderSettings {
        width: plan.width,
        height: plan.height,
        time_base_num: den,
        time_base_den: plan.fps_num,
        framerate_num: plan.fps_num,
        framerate_den: den,
        bit_rate: bps,
        gop_size,
        max_b_frames,
        rc_buffer_size,
    }
}

// ---------------------------------------------------------------------------
// Filter graph
// ---------------------------------------------------------------------------

/// The keyframe interval is two seconds of frames rounded to nearest (at
/// least one frame, at most `i32::MAX`); OpenH264 gets no B-frames, the others
/// three; the rate-control buffer is twice the bitrate while that fits.
pub proof fn lemma_settings_values(plan: EncodePlan, kind: EncoderKind)
    ensures
        ({
            let s = spec_encoder_settings(plan, kind);
            let d = if plan.fps_den < 1 { 1 } else { plan.fps_den as int };
            &&& 1 < s.gop_size < i32::MAX ==> 2 * d * s.gop_size - d <= 4 * plan.fps_num <= 2 * d * s.gop_size + d
            &&& s.gop_size >= 1
            &&& s.framerate_num == plan.fps_num && s.framerate_den == d
            &&& s.time_base_num == d && s.time_base_den == plan.fps_num
            &&& s.width == plan.width && s.height == plan.height && s.bit_rate == plan.video_bitrate_bps
            &&& (kind == EncoderKind::OpenH264 ==> s.max_b_frames == 0)
            &&& (kind != EncoderKind::OpenH264 ==> s.max_b_frames == 3)
            &&& (i32::MIN <= 2 * plan.video_bitrate_bps <= i32::MAX ==> s.rc_buffer_size == 2 * plan.video_bitrate_bps)
            &&& (2 * plan.video_bitrate_bps > i32::MAX ==> s.rc_buffer_size == i32::MAX)
        }),
{
    let d = if plan.fps_den < 1 { 1 } else { plan.fps_den as int };
    crate::plan::lemma_round_div_nearest(2 * plan.fps_num, d);
}

pub open spec fn spec_video_filter_spec(plan: EncodePlan) -> Seq<char> {
    "scale="@ + decimal(plan.width as int) + ":"@ + decimal(plan.height as int)
        + ":flags=bicubic,fps="@ + decimal(plan.fps_num as int) + "/"@
        + decimal(norm_den(plan.fps_den as int)) + ",format=pix_fmts=yuv420p"@
}

/// `scale=W:H` (exact, matches encoder dims) + `fps` (VFR to CFR) + force
/// yuv420p. The text never holds a NUL, so it always makes a C string.
pub fn video_filter_spec(plan: &EncodePlan) -> (r: String)
    ensures
        r@ == spec_video_filter_spec(*plan),
        no_nul(r@),
{
    let den: i32 = if plan.fps_den < 1 { 1 } else { plan.fps_den };
    proof {
        reveal_strlit("scale=");
        reveal_strlit(":");
        reveal_strlit(":flags=bicubic,fps=");
        reveal_strlit("/");
        reveal_strlit(",format=pix_fmts=yuv420p");
    }
    let mut s = String::from_str("scale=");
    append_checked(&mut s, plan.width);
    append_literal(&mut s, ":");
    append_checked(&mut s, plan.height);
    append_literal(&mut s, ":flags=bicubic,fps=");
    append_checked(&mut s, plan.fps_num);
    append_literal(&mut s, "/");
    append_checked(&mut s, den);
    append_literal(&mut s, ",format=pix_fmts=yuv420p");
    s
}

/// The filter graph scales to exactly the encoder's dimensions and resamples
/// to exactly the encoder's frame rate, for any plan and encoder.
pub proof fn lemma_filter_matches_encoder(plan: EncodePlan, kind: EncoderKind)
    ensures
        ({
            let s = spec_encoder_settings(plan, kind);
            spec_video_filter_spec(plan) == "scale="@ + decimal(s.width as int) + ":"@
                + decimal(s.height as int) + ":flags=bicubic,fps="@ + decimal(s.framerate_num as int)
                + "/"@ + decimal(s.framerate_den as int) + ",format=pix_fmts=yuv420p"@
        }),
{
}

/// Arguments of the `buffer` source that feeds decoded frames into the filter
/// graph: the decoder's geometry, pixel format, packet time base and sample
/// aspect ratio.
pub open spec fn spec_buffer_source_args(
    width: i32,
    height: i32,
    pix_fmt: i32,
    tb_num: i32,
    tb_den: i32,
    sar_num: i32,
    sar_den: i32,
) -> Seq<char> {
    "video_size="@ + decimal(width as int) + "x"@ + decimal(height as int) + ":pix_fmt="@
        + decimal(pix_fmt as int) + ":time_base="@ + decimal(tb_num as int) + "/"@
        + decimal(tb_den as int) + ":pixel_aspect="@ + decimal(sar_num as int) + "/"@
        + decimal(sar_den as int)
}

/// `video_size=WxH:pix_fmt=P:time_base=N/D:pixel_aspect=N/D`; never holds a NUL.
pub fn buffer_source_args(
    width: i32,
    height: i32,
    pix_fmt: i32,
    tb_num: i32,
    tb_den: i32,
    sar_num: i32,
    sar_den: i32,
) -> (r: String)
    ensures
        r@ == spec_buffer_source_args(width, height, pix_fmt, tb_num, tb_den, sar_num, sar_den),
        no_nul(r@),
{
    let mut s = String::from_str("video_size=");
    proof {
        reveal_strlit("video_size=");
        reveal_strlit("x");
        reveal_strlit(":pix_fmt=");
        reveal_strlit(":time_base=");
        reveal_strlit("/");
        reveal_strlit(":pixel_aspect=");
    }
    append_checked(&mut s, width);
    append_literal(&mut s, "x");
    append_checked(&mut s, height);
    append_literal(&mut s, ":pix_fmt=");
    append_checked(&mut s, pix_fmt);
    append_literal(&mut s, ":time_base=");
    append_checked(&mut s, tb_num);
    append_literal(&mut s, "/");
    append_checked(&mut s, tb_den);
    append_literal(&mut s, ":pixel_aspect=");
    append_checked(&mut s, sar_num);
    append_literal(&mut s, "/");
    append_checked(&mut s, sar_den);
    s
}

fn append_checked(s: &mut String, x: i32)
    requires
        no_nul(old(s)@),
    ensures
        final(s)@ == old(s)@ + decimal(x as int),
        no_nul(final(s)@),
{
    append_decimal(s, x);
    proof {
        lemma_decimal_has_no_nul(x as int);
        lemma_no_nul_concat(old(s)@, decimal(x as int));
    }
}

fn append_literal(s: &mut String, t: &str)
    requires
        no_nul(old(s)@),
        no_nul(t@),
    ensures
        final(s)@ == old(s)@ + t@,
        no_nul(final(s)@),
{
    s.append(t);
    proof {
        lemma_no_nul_concat(old(s)@, t@);
    }
}

pub open spec fn no_nul(s: Seq<char>) -> bool {
    forall|i: int| 0 <= i < s.len() ==> s[i] != '\0'
}

proof fn lemma_no_nul_concat(a: Seq<char>, b: Seq<char>)
    requires
        no_nul(a),
        no_nul(b),
    ensures
        no_nul(a + b),
{
    assert forall|i: int| 0 <= i < (a + b).len() implies (a + b)[i] != '\0' by {
        if i < a.len() {
            assert((a + b)[i] == a[i]);
        } else {
            assert((a + b)[i] == b[i - a.len()]);
        }
    }
}

// ---------------------------------------------------------------------------
// Streams and packets
// ---------------------------------------------------------------------------

/// Which input streams a pass reads: the first video stream (transcoded) and
/// the first audio stream (stream-copied when audio is kept).
#[derive(Clone, Copy, Debug, PartialEq, Eq, Structural)]
pub struct StreamMap {
    pub video_in: usize,
    pub audio_in: Option<usize>,
    pub copy_audio: bool,
}

/// Where a demuxed packet goes.
#[derive(Clone, Copy, Debug, PartialEq, Eq, Structural)]
pub enum PacketRoute {
    /// Into the video decoder.
    Decode,
    /// Rescaled and written to the audio output stream.
    CopyAudio,
    /// Dropped.
    Skip,
}

pub open spec fn first_kind_index(s: Seq<StreamKind>, kind: StreamKind, from: int) -> Option<int>
    decreases s.len() - from,
{
    if from < 0 || from >= s.len() {
        None
    } else if s[from] == kind {
        Some(from)
    } else {
        first_kind_index(s, kind, from + 1)
    }
}

impl StreamMap {
    /// An audio output stream is created exactly when audio is copied and the
    /// input has an audio stream.
    pub open spec fn spec_has_audio_out(self) -> bool {
        self.copy_audio && self.audio_in is Some
    }

    pub fn has_audio_out(&self) -> (r: bool)
        ensures
            r == self.spec_has_audio_out(),
    {
        self.copy_audio && self.audio_in.is_some()
    }

    pub open spec fn spec_route(self, stream_index: usize) -> PacketRoute {
        if stream_index == self.video_in {
            PacketRoute::Decode
        } else if self.audio_in == Some(stream_index) && self.spec_has_audio_out() {
            PacketRoute::CopyAudio
        } else {
            PacketRoute::Skip
        }
    }

    /// Video packets are decoded; packets of the chosen audio stream are copied
    /// when there is an audio output; everything else is dropped.
    pub fn route_packet(&self, stream_index: usize) -> (r: PacketRoute)
        ensures
            r == self.spec_route(stream_index),
    {
        if stream_index == self.video_in {
            PacketRoute::Decode
        } else {
            match self.audio_in {
                Some(a) => {
                    if a == stream_index && self.copy_audio {
                        PacketRoute::CopyAudio
                    } else {
                        PacketRoute::Skip
                    }
                },
                None => PacketRoute::Skip,
            }
        }
    }
}

/// Choose the streams a pass reads from the input's stream kinds.
pub fn map_streams(kinds: &Vec<StreamKind>, copy_audio: bool) -> (r: Result<StreamMap, NoVideoStream>)
    ensures
        match first_kind_index(kinds@, StreamKind::Video, 0) {
            None => r is Err,
            Some(v) => r matches Ok(m) && m.video_in == v && m.copy_audio == copy_audio
                && m.audio_in == (match first_kind_index(kinds@, StreamKind::Audio, 0) {
                    Some(a) => Some(a as usize),
                    None => None,
                }),
        },
{
    let mut video: Option<usize> = None;
    let mut audio: Option<usize> = None;
    let mut i: usize = 0;
    while i < kinds.len()
        invariant
            i <= kinds.len(),
            first_kind_index(kinds@, StreamKind::Video, 0) == (match video {
                Some(v) => Some(v as int),
                None => first_kind_index(kinds@, StreamKind::Video, i as int),
            }),
            first_kind_index(kinds@, StreamKind::Audio, 0) == (match audio {
                Some(a) => Some(a as int),
                None => first_kind_index(kinds@, StreamKind::Audio, i as int),
            }),
        decreases kinds.len() - i,
    {
        let t = kinds[i];
        if t == StreamKind::Video && video.is_none() {
            video = Some(i);
        } else if t == StreamKind::Audio && audio.is_none() {
            audio = Some(i);
        }
        i += 1;
    }
    match video {
        Some(v) => Ok(StreamMap { video_in: v, audio_in: audio, copy_audio }),
        None => Err(NoVideoStream),
    }
}

/// Packets of the chosen video stream are decoded; packets of the chosen
/// audio stream are copied exactly when audio is kept; every other packet,
/// and all audio when audio is dropped, is skipped.
pub proof fn lemma_packet_routes(m: StreamMap, idx: usize)
    ensures
        idx == m.video_in ==> m.spec_route(idx) == PacketRoute::Decode,
        idx != m.video_in && m.audio_in == Some(idx) && m.copy_audio ==> m.spec_route(idx) == PacketRoute::CopyAudio,
        !m.copy_audio && idx != m.video_in ==> m.spec_route(idx) == PacketRoute::Skip,
        idx != m.video_in && m.audio_in != Some(idx) ==> m.spec_route(idx) == PacketRoute::Skip,
{
}

/// The stream search finds exactly the first stream of the kind.
pub proof fn lemma_first_kind_index_is_first(s: Seq<StreamKind>, kind: StreamKind, from: int, v: int)
    requires
        0 <= from,
    ensures
        first_kind_index(s, kind, from) == Some(v) <==> (from <= v < s.len() && s[v] == kind
            && forall|j: int| from <= j < v ==> #[trigger] s[j] != kind),
        first_kind_index(s, kind, from) is None <==> forall|j: int| from <= j < s.len() ==> #[trigger] s[j] != kind,
    decreases s.len() - from,
{
    if from < s.len() {
        lemma_first_kind_index_is_first(s, kind, from + 1, v);
    }
}

} // verus!
