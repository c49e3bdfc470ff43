//! Turn a [`MediaInfo`] and a size budget into concrete encode settings, and
//! produce a tighter plan when a pass overshoots the ceiling.
//!
//! Everything here is integer arithmetic. The byte-budget estimate itself
//! (margin times ceiling, minus the audio share, over the duration) is computed
//! by the caller in floating point and handed in as a raw bitrate; the functions
//! here clamp it and derive resolution and frame rate from it.

use vstd::prelude::*;
use crate::compress::CompressOptions;
use crate::probe::MediaInfo;

verus! {

/// Floor on video bitrate; below this, quality is so bad that shrinking further
/// is pointless (better to drop resolution, which `choose_resolution` does).
pub const MIN_VIDEO_BPS: i64 = 120_000;

/// Audio bitrate assumed when the container does not record one (typical
/// ShadowPlay AAC).
pub const FALLBACK_AUDIO_BPS: i64 = 160_000;

#[derive(Clone, Copy, Debug, PartialEq, Eq, Structural)]
pub enum AudioAction {
    /// Stream-copy the source audio (no re-encode, no generation loss).
    Copy,
    /// Drop audio entirely.
    Drop,
}

#[derive(Clone, Copy, Debug, PartialEq, Eq, Structural)]
pub struct EncodePlan {
    pub width: i32,
    pub height: i32,
    /// Output frame rate as a rational; the encode is always normalized to this
    /// constant rate (ShadowPlay captures are VFR).
    pub fps_num: i32,
    pub fps_den: i32,
    pub video_bitrate_bps: i64,
    pub audio: AudioAction,
}

// ---------------------------------------------------------------------------
// Specifications
// ---------------------------------------------------------------------------

/// `x` raised to at least 2, then rounded down to an even number.
pub open spec fn spec_make_even(x: int) -> int {
    let y = if x < 2 { 2 } else { x };
    y - y % 2
}

/// `a / b` rounded to the nearest integer, halves away from zero (what
/// `f64::round` does to the quotient), for `b > 0`.
pub open spec fn round_div(a: int, b: int) -> int {
    if a >= 0 {
        (2 * a + b) / (2 * b)
    } else {
        -((-2 * a + b) / (2 * b))
    }
}

pub open spec fn min_int(a: int, b: int) -> int {
    if a <= b { a } else { b }
}

pub open spec fn max_int(a: int, b: int) -> int {
    if a >= b { a } else { b }
}

/// The output height aimed for: capped to 1080, then to 720 below 1.6 Mb/s,
/// then to 480 below 700 kb/s.
pub open spec fn target_height(src_h: int, video_bps: int) -> int {
    let h1 = min_int(src_h, 1080);
    let h2 = if video_bps < 1_600_000 { min_int(h1, 720) } else { h1 };
    if video_bps < 700_000 { min_int(h2, 480) } else { h2 }
}

/// Output dimensions for a source of `src_w` x `src_h` at `video_bps`: the
/// source dimensions when no downscale is needed, else the target height with
/// the width scaled by the same factor; both forced even.
pub open spec fn spec_choose_resolution(src_w: int, src_h: int, video_bps: int) -> (int, int) {
    let th = target_height(src_h, video_bps);
    if th >= src_h {
        (spec_make_even(src_w), spec_make_even(src_h))
    } else {
        (spec_make_even(round_div(src_w * th, src_h)), spec_make_even(th))
    }
}

/// The denominator a rational frame rate is normalized to (at least 1).
pub open spec fn norm_den(den: int) -> int {
    if den < 1 { 1 } else { den }
}

/// Whether the source rate `num / max(den, 1)` exceeds 45 frames per second.
pub open spec fn above_45_fps(num: int, den: int) -> bool {
    num > 45 * norm_den(den)
}

/// The output frame rate: 30/1 when the source runs above 45 fps, bits are
/// tight (under 3 Mb/s) and the caller did not ask to keep the rate; otherwise
/// the source rate with its denominator normalized to at least 1.
pub open spec fn spec_choose_fps(num: int, den: int, keep_fps: bool, video_bps: int) -> (int, int) {
    if !keep_fps && above_45_fps(num, den) && video_bps < 3_000_000 {
        (30, 1)
    } else {
        (num, norm_den(den))
    }
}

pub open spec fn spec_assumed_audio_bps(info: MediaInfo) -> int {
    if info.audio_bitrate_bps > 0 {
        info.audio_bitrate_bps as int
    } else {
        FALLBACK_AUDIO_BPS as int
    }
}

/// Audio is copied only when the caller wants audio and the source has some.
pub open spec fn spec_initial_audio(info: MediaInfo, opts: CompressOptions) -> AudioAction {
    if opts.include_audio && info.has_audio {
        AudioAction::Copy
    } else {
        AudioAction::Drop
    }
}

/// The plan for a clip at a raw (unclamped) video bitrate: the bitrate raised to
/// at least `MIN_VIDEO_BPS`, with frame rate and resolution chosen for it.
pub open spec fn spec_plan(info: MediaInfo, keep_fps: bool, audio: AudioAction, raw_bps: int) -> EncodePlan {
    let bps = max_int(raw_bps, MIN_VIDEO_BPS as int);
    let fps = spec_choose_fps(info.fps_num as int, info.fps_den as int, keep_fps, bps);
    let res = spec_choose_resolution(info.width as int, info.height as int, bps);
    EncodePlan {
        width: res.0 as i32,
        height: res.1 as i32,
        fps_num: fps.0 as i32,
        fps_den: fps.1 as i32,
        video_bitrate_bps: bps as i64,
        audio: audio,
    }
}

/// The frame rate `n1/d1` is at most `n2/d2` (both denominators positive).
pub open spec fn rate_le(n1: int, d1: int, n2: int, d2: int) -> bool {
    n1 * d2 <= n2 * d1
}

// ---------------------------------------------------------------------------
// Arithmetic lemmas
// ---------------------------------------------------------------------------

proof fn lemma_div_below(x: int, d: int, n: int)
    requires
        0 <= x,
        x < d * (n + 1),
        d > 0,
        n >= 0,
    ensures
        0 <= x / d <= n,
{
    vstd::arithmetic::div_mod::lemma_fundamental_div_mod(x, d);
    vstd::arithmetic::div_mod::lemma_div_pos_is_pos(x, d);
    let q = x / d;
    if q > n {
        assert(d * q >= d * (n + 1)) by (nonlinear_arith)
            requires
                q >= n + 1,
                d > 0,
        ;
        assert(false);
    }
}

/// Scaling a magnitude `n` by `t / h` with `t < h` and rounding never exceeds `n`.
proof fn lemma_scaled_round_le(n: int, t: int, h: int)
    requires
        n >= 0,
        0 < t < h,
    ensures
        0 <= (2 * (n * t) + h) / (2 * h) <= n,
{
    assert(2 * (n * t) + h < (2 * h) * (n + 1)) by (nonlinear_arith)
        requires
            n >= 0,
            0 < t < h,
    ;
    assert(0 <= 2 * (n * t) + h) by (nonlinear_arith)
        requires
            n >= 0,
            0 < t < h,
    ;
    lemma_div_below(2 * (n * t) + h, 2 * h, n);
}

/// Rounding a quotient is monotone in the numerator.
proof fn lemma_round_div_monotone(a1: int, a2: int, b: int)
    requires
        0 <= a1 <= a2,
        b > 0,
    ensures
        round_div(a1, b) <= round_div(a2, b),
{
    vstd::arithmetic::div_mod::lemma_div_is_ordered(2 * a1 + b, 2 * a2 + b, 2 * b);
}

proof fn lemma_make_even_monotone(x: int, y: int)
    requires
        x <= y,
    ensures
        spec_make_even(x) <= spec_make_even(y),
{
}

// ---------------------------------------------------------------------------
// Executable functions
// ---------------------------------------------------------------------------

/// Force a dimension to be even (yuv420p needs it) and at least 2.
pub fn make_even(x: i32) -> (r: i32)
    ensures
        r == spec_make_even(x as int),
        r % 2 == 0,
        r >= 2,
        r <= (if x < 2 { 2 } else { x as int }),
        x >= 2 ==> r >= x - 1,
{
    let x = if x < 2 { 2 } else { x };
    x - (x % 2)
}

fn round_div_i64(a: i64, b: i64) -> (r: i64)
    requires
        -0x2000_0000_0000_0000 <= a <= 0x2000_0000_0000_0000,
        0 < b <= 0x2000_0000_0000_0000,
    ensures
        r == round_div(a as int, b as int),
{
    if a >= 0 {
        (2 * a + b) / (2 * b)
    } else {
        0 - ((0 - 2 * a + b) / (2 * b))
    }
}

/// The audio bitrate to budget for: the container's figure when it has one.
pub fn assumed_audio_bps(info: &MediaInfo) -> (r: i64)
    ensures
        r == spec_assumed_audio_bps(*info),
        r > 0,
        info.audio_bitrate_bps > 0 ==> r == info.audio_bitrate_bps,
        info.audio_bitrate_bps <= 0 ==> r == 160_000,
{
    if info.audio_bitrate_bps > 0 {
        info.audio_bitrate_bps
    } else {
        FALLBACK_AUDIO_BPS
    }
}

/// Copy the audio when the options ask for it and the source has an audio stream.
pub fn initial_audio(info: &MediaInfo, opts: &CompressOptions) -> (r: AudioAction)
    ensures
        r == spec_initial_audio(*info, *opts),
        (r == AudioAction::Copy) <==> (opts.include_audio && info.has_audio),
{
    if opts.include_audio && info.has_audio {
        AudioAction::Copy
    } else {
        AudioAction::Drop
    }
}

/// Cap to 1080p, then step down further if there aren't enough bits to make the
/// resolution worthwhile. Never upscales. Dimensions are forced even (yuv420p).
/// The scaled width is the exactly rounded quotient `width * target / height`;
/// for `i32` inputs the product stays below 2^42, so `f64` division followed
/// by `round` gives the same integer.
pub fn choose_resolution(info: &MediaInfo, video_bps: i64) -> (r: (i32, i32))
    ensures
        (r.0 as int, r.1 as int) == spec_choose_resolution(info.width as int, info.height as int, video_bps as int),
        r.0 % 2 == 0 && r.0 >= 2,
        r.1 % 2 == 0 && r.1 >= 2,
        r.1 <= 1080,
        video_bps < 1_600_000 ==> r.1 <= 720,
        video_bps < 700_000 ==> r.1 <= 480,
        info.height >= 2 ==> r.1 <= info.height,
        info.width >= 2 ==> r.0 <= info.width,
{
    let mut target_h: i32 = if info.height < 1080 { info.height } else { 1080 };
    if video_bps < 1_600_000 {
        target_h = if target_h < 720 { target_h } else { 720 };
    }
    if video_bps < 700_000 {
        target_h = if target_h < 480 { target_h } else { 480 };
    }
    assert(target_h == target_height(info.height as int, video_bps as int));

    if target_h >= info.height {
        // No downscale needed; keep source dimensions (already even from capture).
        return (make_even(info.width), make_even(info.height));
    }
    assert(480 <= target_h <= 1080 && target_h < info.height);
    assert(-0x2000_0000_0000_0000 <= (info.width as int) * (target_h as int) <= 0x2000_0000_0000_0000) by (nonlinear_arith)
        requires
            -0x8000_0000 <= info.width <= 0x7fff_ffff,
            480 <= target_h <= 1080,
    ;
    let a: i64 = (info.width as i64) * (target_h as i64);
    let q = round_div_i64(a, info.height as i64);
    proof {
        let w = info.width as int;
        let t = target_h as int;
        let h = info.height as int;
        if w >= 0 {
            lemma_scaled_round_le(w, t, h);
            assert(a == w * t);
        } else {
            lemma_scaled_round_le(-w, t, h);
            assert(-2 * a == 2 * ((-w) * t)) by (nonlinear_arith)
                requires
                    a == w * t,
            ;
        }
        assert(-0x8000_0000 <= q <= 0x7fff_ffff);
    }
    let width = q as i32;
    (make_even(width), make_even(target_h))
}

/// Always normalize to CFR. Cap 60 to 30 when bits are tight; otherwise keep
/// the source nominal rate. "Above 45 fps" is decided exactly, as
/// `num > 45 * den`.
pub fn choose_fps(info: &MediaInfo, opts: &CompressOptions, video_bps: i64) -> (r: (i32, i32))
    ensures
        (r.0 as int, r.1 as int) == spec_choose_fps(info.fps_num as int, info.fps_den as int, opts.keep_fps, video_bps as int),
        r.1 >= 1,
        opts.keep_fps ==> r.0 == info.fps_num && r.1 == (if info.fps_den < 1 { 1 } else { info.fps_den as int }),
        !opts.keep_fps && info.fps_num > 45 * (if info.fps_den < 1 { 1 } else { info.fps_den as int })
            && video_bps < 3_000_000 ==> r == (30i32, 1i32),
        r == (30i32, 1i32) || (r.0 == info.fps_num && r.1 == (if info.fps_den < 1 { 1 } else { info.fps_den as int })),
{
    let den: i32 = if info.fps_den < 1 { 1 } else { info.fps_den };
    if !opts.keep_fps && (info.fps_num as i64) > 45 * (den as i64) && video_bps < 3_000_000 {
        return (30, 1);
    }
    (info.fps_num, den)
}

/// The plan for `info` at a raw video bitrate: the bitrate raised to the floor
/// `MIN_VIDEO_BPS`, frame rate and resolution chosen for the resulting rate.
pub fn plan_with_bitrate(info: &MediaInfo, opts: &CompressOptions, audio: AudioAction, raw_video_bps: i64) -> (r: EncodePlan)
    ensures
        r == spec_plan(*info, opts.keep_fps, audio, raw_video_bps as int),
        r.video_bitrate_bps >= MIN_VIDEO_BPS,
        r.video_bitrate_bps >= raw_video_bps,
        r.audio == audio,
        r.width % 2 == 0 && r.width >= 2,
        r.height % 2 == 0 && r.height >= 2 && r.height <= 1080,
        r.fps_den >= 1,
        r.video_bitrate_bps == (if raw_video_bps < MIN_VIDEO_BPS { MIN_VIDEO_BPS } else { raw_video_bps }),
        opts.keep_fps ==> r.fps_num == info.fps_num && r.fps_den == (if info.fps_den < 1 { 1 } else { info.fps_den as int }),
{
    let video_bps = if raw_video_bps < MIN_VIDEO_BPS { MIN_VIDEO_BPS } else { raw_video_bps };
    let (fps_num, fps_den) = choose_fps(info, opts, video_bps);
    let (width, height) = choose_resolution(info, video_bps);
    EncodePlan {
        width,
        height,
        fps_num,
        fps_den,
        video_bitrate_bps: video_bps,
        audio,
    }
}

/// First-pass plan. `raw_video_bps` is the budgeted video bitrate: the aimed-for
/// bits (`margin * max_bytes * 8`, less the audio bits of `initial_audio`, never
/// negative) over the duration, rounded.
pub fn plan_initial(info: &MediaInfo, opts: &CompressOptions, raw_video_bps: i64) -> (r: EncodePlan)
    ensures
        r == spec_plan(*info, opts.keep_fps, spec_initial_audio(*info, *opts), raw_video_bps as int),
        r.video_bitrate_bps >= MIN_VIDEO_BPS,
        (r.audio == AudioAction::Copy) <==> (opts.include_audio && info.has_audio),
        r.video_bitrate_bps == (if raw_video_bps < MIN_VIDEO_BPS { MIN_VIDEO_BPS } else { raw_video_bps }),
        opts.keep_fps ==> r.fps_num == info.fps_num && r.fps_den == (if info.fps_den < 1 { 1 } else { info.fps_den as int }),
{
    let audio = initial_audio(info, opts);
    plan_with_bitrate(info, opts, audio, raw_video_bps)
}

/// The raw bitrate a shrink works with: never above the current bitrate, and
/// strictly below it when the current bitrate is above the floor. (An
/// overshoot ratio of at most 0.97 already keeps the raw bitrate there; the
/// cap makes the cut hold whatever the caller hands in.)
pub open spec fn shrink_cap(current_bps: int, raw_bps: int) -> int {
    if current_bps > MIN_VIDEO_BPS as int {
        min_int(raw_bps, current_bps - 1)
    } else {
        min_int(raw_bps, MIN_VIDEO_BPS as int)
    }
}

/// The plan after an overshoot: the same clip, options and audio action at the
/// capped raw bitrate.
pub open spec fn spec_shrink(plan: EncodePlan, info: MediaInfo, keep_fps: bool, raw_bps: int) -> EncodePlan {
    spec_plan(info, keep_fps, plan.audio, shrink_cap(plan.video_bitrate_bps as int, raw_bps))
}

impl EncodePlan {
    /// Produce a tighter plan after an overshoot. `raw_video_bps` is the current
    /// bitrate scaled by the measured overshoot ratio (at most 0.97, accounting
    /// for the fixed audio bytes), rounded. The new bitrate is always lower
    /// than the current one unless that is already the floor; resolution and
    /// frame rate may step down further when the new bitrate is low. The audio
    /// action is kept.
    pub fn shrink(&self, info: &MediaInfo, opts: &CompressOptions, raw_video_bps: i64) -> (r: EncodePlan)
        ensures
            r == spec_shrink(*self, *info, opts.keep_fps, raw_video_bps as int),
            r.audio == self.audio,
            r.video_bitrate_bps >= MIN_VIDEO_BPS,
            r.video_bitrate_bps <= max_int(MIN_VIDEO_BPS as int, self.video_bitrate_bps as int),
            self.video_bitrate_bps > MIN_VIDEO_BPS ==> r.video_bitrate_bps < self.video_bitrate_bps,
            MIN_VIDEO_BPS <= raw_video_bps < self.video_bitrate_bps ==> r.video_bitrate_bps == raw_video_bps,
            opts.keep_fps ==> r.fps_num == info.fps_num && r.fps_den == (if info.fps_den < 1 { 1 } else { info.fps_den as int }),
    {
        let cur = self.video_bitrate_bps;
        let capped: i64 = if cur > MIN_VIDEO_BPS {
            if raw_video_bps < cur - 1 { raw_video_bps } else { cur - 1 }
        } else {
            if raw_video_bps < MIN_VIDEO_BPS { raw_video_bps } else { MIN_VIDEO_BPS }
        };
        plan_with_bitrate(info, opts, self.audio, capped)
    }
}

// ---------------------------------------------------------------------------
// Laws
// ---------------------------------------------------------------------------

/// A lower video bitrate never yields a taller output, nor (for a non-negative
/// source width) a wider one.
pub proof fn lemma_resolution_monotone(src_w: i32, src_h: i32, bps_low: i64, bps_high: i64)
    requires
        bps_low <= bps_high,
    ensures
        spec_choose_resolution(src_w as int, src_h as int, bps_low as int).1
            <= spec_choose_resolution(src_w as int, src_h as int, bps_high as int).1,
        src_w >= 0 ==> spec_choose_resolution(src_w as int, src_h as int, bps_low as int).0
            <= spec_choose_resolution(src_w as int, src_h as int, bps_high as int).0,
{
    let w = src_w as int;
    let h = src_h as int;
    let t1 = target_height(h, bps_low as int);
    let t2 = target_height(h, bps_high as int);
    assert(t1 <= t2);
    if t1 >= h {
        // both keep the source dimensions
    } else if t2 >= h {
        if w >= 0 {
            assert(t1 > 0);
            lemma_scaled_round_le(w, t1, h);
            lemma_make_even_monotone(round_div(w * t1, h), w);
        }
        lemma_make_even_monotone(t1, h);
    } else {
        if w >= 0 {
            assert(w * t1 <= w * t2) by (nonlinear_arith)
                requires
                    w >= 0,
                    t1 <= t2,
            ;
            assert(0 <= w * t1) by (nonlinear_arith)
                requires
                    w >= 0,
                    t1 >= 0,
            ;
            lemma_round_div_monotone(w * t1, w * t2, h);
            lemma_make_even_monotone(round_div(w * t1, h), round_div(w * t2, h));
        }
        lemma_make_even_monotone(t1, t2);
    }
}

/// A lower video bitrate never yields a higher output frame rate.
pub proof fn lemma_fps_monotone(num: i32, den: i32, keep_fps: bool, bps_low: i64, bps_high: i64)
    requires
        bps_low <= bps_high,
    ensures
        ({
            let lo = spec_choose_fps(num as int, den as int, keep_fps, bps_low as int);
            let hi = spec_choose_fps(num as int, den as int, keep_fps, bps_high as int);
            lo.1 >= 1 && hi.1 >= 1 && rate_le(lo.0, lo.1, hi.0, hi.1)
        }),
{
    let d = norm_den(den as int);
    let n = num as int;
    let capped_lo = !keep_fps && above_45_fps(n, den as int) && (bps_low as int) < 3_000_000;
    let capped_hi = !keep_fps && above_45_fps(n, den as int) && (bps_high as int) < 3_000_000;
    if capped_lo && !capped_hi {
        // 30/1 against the source rate, which is above 45 fps
        assert(30 * d <= n * 1);
    }
}

/// The output frame rate never exceeds the source rate.
pub proof fn lemma_fps_never_raised(num: i32, den: i32, keep_fps: bool, bps: i64)
    ensures
        ({
            let r = spec_choose_fps(num as int, den as int, keep_fps, bps as int);
            rate_le(r.0, r.1, num as int, norm_den(den as int))
        }),
{
    let d = norm_den(den as int);
    let n = num as int;
    if !keep_fps && above_45_fps(n, den as int) && (bps as int) < 3_000_000 {
        assert(30 * d <= n * 1);
    } else {
        assert(n * d <= n * d);
    }
}

/// Shrinking a plan to a bitrate no higher than its current one never raises
/// the resolution or the frame rate, when the plan came from the same clip and
/// options (as every plan of `plan_initial` and `shrink` does).
pub proof fn lemma_shrink_never_grows(info: MediaInfo, keep_fps: bool, audio: AudioAction, raw_before: int, raw_after: int)
    requires
        raw_after <= max_int(raw_before, MIN_VIDEO_BPS as int),
        i64::MIN <= raw_before <= i64::MAX,
        i64::MIN <= raw_after <= i64::MAX,
    ensures
        ({
            let before = spec_plan(info, keep_fps, audio, raw_before);
            let after = spec_plan(info, keep_fps, audio, raw_after);
            &&& after.video_bitrate_bps <= before.video_bitrate_bps
            &&& after.height <= before.height
            &&& info.width >= 0 ==> after.width <= before.width
            &&& rate_le(after.fps_num as int, after.fps_den as int, before.fps_num as int, before.fps_den as int)
            &&& after.audio == before.audio
        }),
{
    let b0 = max_int(raw_before, MIN_VIDEO_BPS as int);
    let b1 = max_int(raw_after, MIN_VIDEO_BPS as int);
    assert(b1 <= b0);
    lemma_resolution_monotone(info.width, info.height, b1 as i64, b0 as i64);
    lemma_fps_monotone(info.fps_num, info.fps_den, keep_fps, b1 as i64, b0 as i64);
    let r0 = spec_choose_resolution(info.width as int, info.height as int, b0);
    let r1 = spec_choose_resolution(info.width as int, info.height as int, b1);
    lemma_resolution_fits(info.width, info.height, b0 as i64);
    lemma_resolution_fits(info.width, info.height, b1 as i64);
    let f0 = spec_choose_fps(info.fps_num as int, info.fps_den as int, keep_fps, b0);
    let f1 = spec_choose_fps(info.fps_num as int, info.fps_den as int, keep_fps, b1);
    assert(f0.0 == f0.0 as i32 && f0.1 == f0.1 as i32);
    assert(f1.0 == f1.0 as i32 && f1.1 == f1.1 as i32);
}

/// Shrinking a plan of this library (one made for the same clip and options,
/// as `plan_initial` and `shrink` make them) never raises the bitrate, the
/// resolution or the frame rate, and lowers the bitrate unless it is at the
/// floor.
pub proof fn lemma_shrink_steps_down(info: MediaInfo, keep_fps: bool, audio: AudioAction, raw_before: int, raw_after: int)
    requires
        i64::MIN <= raw_before <= i64::MAX,
        i64::MIN <= raw_after <= i64::MAX,
    ensures
        ({
            let before = spec_plan(info, keep_fps, audio, raw_before);
            let after = spec_shrink(before, info, keep_fps, raw_after);
            &&& after.video_bitrate_bps <= before.video_bitrate_bps
            &&& before.video_bitrate_bps > MIN_VIDEO_BPS ==> after.video_bitrate_bps < before.video_bitrate_bps
            &&& after.height <= before.height
            &&& info.width >= 0 ==> after.width <= before.width
            &&& rate_le(after.fps_num as int, after.fps_den as int, before.fps_num as int, before.fps_den as int)
            &&& after.audio == before.audio
        }),
{
    let before = spec_plan(info, keep_fps, audio, raw_before);
    let cap = shrink_cap(before.video_bitrate_bps as int, raw_after);
    assert(before.video_bitrate_bps as int == max_int(raw_before, MIN_VIDEO_BPS as int));
    lemma_shrink_never_grows(info, keep_fps, audio, raw_before, cap);
}

/// Without `keep_fps`, a source above 45 fps gets exactly 30/1 when the video
/// bitrate is under 3 Mb/s, whatever its rate (60, 120, 144 fps...).
pub proof fn lemma_fast_sources_capped_to_30(num: i32, den: i32, video_bps: i64)
    requires
        num > 45 * (if den < 1 { 1 } else { den as int }),
        video_bps < 3_000_000,
    ensures
        spec_choose_fps(num as int, den as int, false, video_bps as int) == (30int, 1int),
{
}

/// The frame rate is capped only then: with `keep_fps`, at 3 Mb/s or more, or
/// for a source of at most 45 fps, the source rate is kept (its denominator
/// raised to at least 1).
pub proof fn lemma_fps_kept_otherwise(num: i32, den: i32, keep_fps: bool, video_bps: i64)
    requires
        keep_fps || video_bps >= 3_000_000 || num <= 45 * (if den < 1 { 1 } else { den as int }),
    ensures
        spec_choose_fps(num as int, den as int, keep_fps, video_bps as int)
            == (num as int, if den < 1 { 1 } else { den as int }),
{
}

/// With `keep_fps`, every plan (first or shrunk) keeps the source frame rate,
/// whatever the bitrate.
pub proof fn lemma_keep_fps_plans_keep_rate(info: MediaInfo, audio: AudioAction, raw_bps: int, current: EncodePlan, raw_next: int)
    requires
        i64::MIN <= raw_bps <= i64::MAX,
        i64::MIN <= raw_next <= i64::MAX,
    ensures
        spec_plan(info, true, audio, raw_bps).fps_num == info.fps_num,
        spec_plan(info, true, audio, raw_bps).fps_den == (if info.fps_den < 1 { 1 } else { info.fps_den as int }),
        spec_shrink(current, info, true, raw_next).fps_num == info.fps_num,
        spec_shrink(current, info, true, raw_next).fps_den == (if info.fps_den < 1 { 1 } else { info.fps_den as int }),
{
}

/// Without `keep_fps`, every plan of a source above 45 fps whose bitrate is
/// under 3 Mb/s runs at 30/1.
pub proof fn lemma_tight_plans_run_at_30(info: MediaInfo, audio: AudioAction, raw_bps: int)
    requires
        i64::MIN <= raw_bps <= i64::MAX,
        info.fps_num > 45 * (if info.fps_den < 1 { 1 } else { info.fps_den as int }),
        spec_plan(info, false, audio, raw_bps).video_bitrate_bps < 3_000_000,
    ensures
        spec_plan(info, false, audio, raw_bps).fps_num == 30,
        spec_plan(info, false, audio, raw_bps).fps_den == 1,
{
}

/// The plan's bitrate is the raw bitrate, raised to the floor when below it.
pub proof fn lemma_plan_bitrate(info: MediaInfo, keep_fps: bool, audio: AudioAction, raw_bps: int)
    requires
        i64::MIN <= raw_bps <= i64::MAX,
    ensures
        raw_bps >= MIN_VIDEO_BPS ==> spec_plan(info, keep_fps, audio, raw_bps).video_bitrate_bps == raw_bps,
        raw_bps < MIN_VIDEO_BPS ==> spec_plan(info, keep_fps, audio, raw_bps).video_bitrate_bps == MIN_VIDEO_BPS,
        spec_plan(info, keep_fps, audio, raw_bps).audio == audio,
{
}

/// Output height for a source at least as tall as the target: 1080 at
/// 1.6 Mb/s and up, 720 from 700 kb/s, 480 below.
pub proof fn lemma_height_steps(src_w: i32, src_h: i32, video_bps: i64)
    ensures
        src_h >= 1080 && video_bps >= 1_600_000 ==> spec_choose_resolution(src_w as int, src_h as int, video_bps as int).1 == 1080,
        src_h >= 720 && 700_000 <= video_bps < 1_600_000 ==> spec_choose_resolution(src_w as int, src_h as int, video_bps as int).1 == 720,
        src_h >= 480 && video_bps < 700_000 ==> spec_choose_resolution(src_w as int, src_h as int, video_bps as int).1 == 480,
        src_h <= 480 ==> spec_choose_resolution(src_w as int, src_h as int, video_bps as int) == (spec_make_even(src_w as int), spec_make_even(src_h as int)),
{
}

/// `round_div` is the nearest integer to the quotient, halves going away from
/// zero.
pub proof fn lemma_round_div_nearest(a: int, b: int)
    requires
        b > 0,
    ensures
        2 * a - b <= 2 * b * round_div(a, b) <= 2 * a + b,
        a >= 0 ==> 2 * b * round_div(a, b) > 2 * a - b,
        a < 0 ==> 2 * b * round_div(a, b) < 2 * a + b,
{
    if a >= 0 {
        let q = (2 * a + b) / (2 * b);
        vstd::arithmetic::div_mod::lemma_fundamental_div_mod(2 * a + b, 2 * b);
        let m = (2 * a + b) % (2 * b);
        assert(2 * a + b == 2 * b * q + m);
    } else {
        let q = (-2 * a + b) / (2 * b);
        vstd::arithmetic::div_mod::lemma_fundamental_div_mod(-2 * a + b, 2 * b);
        let m = (-2 * a + b) % (2 * b);
        assert(-2 * a + b == 2 * b * q + m);
        assert(2 * b * round_div(a, b) == -(2 * b * q)) by (nonlinear_arith)
            requires
                round_div(a, b) == -q,
        ;
    }
}

/// A downscaled width keeps the source's aspect ratio: it is the even number
/// at or just below the scaled width rounded to nearest, so it lies within
/// half a pixel above and two pixels below `width * height_out / height`.
pub proof fn lemma_downscaled_width(src_w: i32, src_h: i32, video_bps: i64)
    requires
        src_w >= 0,
        target_height(src_h as int, video_bps as int) < src_h,
    ensures
        ({
            let th = target_height(src_h as int, video_bps as int);
            let w_out = spec_choose_resolution(src_w as int, src_h as int, video_bps as int).0;
            &&& w_out > 2 ==> 2 * src_h * w_out <= 2 * src_w * th + src_h
            &&& 2 * src_h * (w_out + 2) > 2 * src_w * th + src_h
        }),
{
    let th = target_height(src_h as int, video_bps as int);
    let h = src_h as int;
    assert(480 <= th <= 1080);
    let a = (src_w as int) * th;
    assert(a >= 0) by (nonlinear_arith)
        requires
            src_w >= 0,
            th >= 480,
            a == (src_w as int) * th,
    ;
    assert(2 * (src_w as int) * th == 2 * a) by (nonlinear_arith)
        requires
            a == (src_w as int) * th,
    ;
    lemma_round_div_nearest(a, h);
    let r = round_div(a, h);
    let w_out = spec_make_even(r);
    assert(w_out == spec_choose_resolution(src_w as int, src_h as int, video_bps as int).0);
    if r >= 2 {
        assert(w_out == r || w_out == r - 1);
        assert(2 * h * w_out <= 2 * h * r) by (nonlinear_arith)
            requires
                w_out <= r,
                h > 0,
        ;
        assert(2 * h * (w_out + 2) >= 2 * h * (r + 1)) by (nonlinear_arith)
            requires
                w_out + 2 >= r + 1,
                h > 0,
        ;
        assert(2 * h * (r + 1) == 2 * h * r + 2 * h) by (nonlinear_arith);
        assert(2 * h * w_out <= 2 * a + h);
        assert(2 * h * (w_out + 2) > 2 * a + h);
    } else {
        assert(w_out == 2);
        assert(2 * h * (w_out + 2) >= 2 * h * (r + 1)) by (nonlinear_arith)
            requires
                w_out + 2 >= r + 1,
                h > 0,
        ;
        assert(2 * h * (r + 1) == 2 * h * r + 2 * h) by (nonlinear_arith);
        assert(2 * h * (w_out + 2) > 2 * a + h);
    }
}

/// The chosen dimensions are in `i32` range.
proof fn lemma_resolution_fits(src_w: i32, src_h: i32, bps: i64)
    ensures
        ({
            let r = spec_choose_resolution(src_w as int, src_h as int, bps as int);
            2 <= r.0 <= i32::MAX && 2 <= r.1 <= i32::MAX && r.0 == r.0 as i32 && r.1 == r.1 as i32
        }),
{
    let w = src_w as int;
    let h = src_h as int;
    let t = target_height(h, bps as int);
    if t < h {
        assert(480 <= t <= 1080);
        if w >= 0 {
            lemma_scaled_round_le(w, t, h);
        } else {
            lemma_scaled_round_le(-w, t, h);
            assert(-2 * (w * t) == 2 * ((-w) * t)) by (nonlinear_arith);
        }
    }
}

} // verus!
