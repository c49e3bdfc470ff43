//! The measure-then-re-encode loop that keeps an output under a byte ceiling:
//! its options, and the session that decides after each pass whether the
//! output fits, whether to give up, or whether to shrink and try again.

use vstd::prelude::*;
use crate::encode::{spec_encoder_name, Encoder, EncoderKind};
use crate::plan::{max_int, plan_initial, spec_initial_audio, spec_plan, spec_shrink, EncodePlan, MIN_VIDEO_BPS};
use crate::probe::MediaInfo;

verus! {

/// The integer part of the compression settings. (The first-pass aim factor
/// below the ceiling is a fraction, kept with the floating-point budgeting.)
#[derive(Clone, Copy, Debug, PartialEq, Eq, Structural)]
pub struct CompressOptions {
    /// Hard ceiling: the output must end up at or below this many bytes.
    pub max_bytes: u64,
    /// Max encode passes before giving up (returns best-effort).
    pub max_passes: u32,
    pub encoder: Encoder,
    /// Keep the source frame rate instead of capping 60 to 30 when bits are tight.
    pub keep_fps: bool,
    /// Stream-copy the source audio (vs. drop it).
    pub include_audio: bool,
}

impl Default for CompressOptions {
    /// Discord's free-tier upload limit (10 MB) as the ceiling, three passes,
    /// automatic encoder choice, frame-rate capping allowed, audio copied.
    fn default() -> (r: Self)
        ensures
            r.max_bytes == 10_000_000,
            r.max_passes == 3,
            r.encoder == Encoder::Auto,
            !r.keep_fps,
            r.include_audio,
    {
        CompressOptions {
            max_bytes: 10_000_000,
            max_passes: 3,
            encoder: Encoder::Auto,
            keep_fps: false,
            include_audio: true,
        }
    }
}

/// Reported once per encode pass, for progress UIs / logging.
#[derive(Clone, Debug)]
pub struct PassInfo {
    pub pass: u32,
    pub max_passes: u32,
    pub plan: EncodePlan,
    pub encoder: String,
}

/// What to do after a pass, given the size it produced.
#[derive(Clone, Copy, Debug, PartialEq, Eq, Structural)]
pub enum PassVerdict {
    /// The output is within the ceiling: done.
    Fits,
    /// Over the ceiling and out of passes: done, best effort.
    GiveUp,
    /// Over the ceiling with passes left: shrink the plan and encode again.
    Retry,
}

/// The result of a finished session.
#[derive(Clone, Copy, Debug, PartialEq, Eq, Structural)]
pub struct CompressSummary {
    pub final_bytes: u64,
    pub passes: u32,
    /// Whether the final file is within `max_bytes`.
    pub fits: bool,
    pub last_plan: EncodePlan,
}

/// The verdict on a pass that produced `final_bytes` bytes, as pass number
/// `passes`: it fits when within the ceiling; otherwise the session gives up
/// once `max_passes` passes have run, and retries before that.
pub open spec fn spec_verdict(final_bytes: u64, max_bytes: u64, passes: u32, max_passes: u32) -> PassVerdict {
    if final_bytes <= max_bytes {
        PassVerdict::Fits
    } else if passes >= max_passes {
        PassVerdict::GiveUp
    } else {
        PassVerdict::Retry
    }
}

/// `max_passes` is 0, so no encode pass may run.
#[derive(Clone, Copy, Debug, PartialEq, Eq, Structural)]
pub struct NoPassAllowed;

/// One compression run: the clip, the options, the encoder, how many passes
/// have been made, and the plan the next (or last) pass uses. The first plan
/// is `plan_initial`'s and every later one is `shrink` of the one before, so
/// each retry runs at a lower bitrate unless the floor is reached.
pub struct CompressSession {
    passes: u32,
    opts: CompressOptions,
    info: MediaInfo,
    encoder: EncoderKind,
    plan: EncodePlan,
}

impl CompressSession {
    #[verifier::type_invariant]
    spec fn within_limit(self) -> bool {
        self.passes <= self.opts.max_passes
    }

    pub closed spec fn spec_passes(self) -> u32 {
        self.passes
    }

    pub closed spec fn spec_opts(self) -> CompressOptions {
        self.opts
    }

    pub closed spec fn spec_info(self) -> MediaInfo {
        self.info
    }

    pub closed spec fn spec_encoder(self) -> EncoderKind {
        self.encoder
    }

    pub closed spec fn spec_plan(self) -> EncodePlan {
        self.plan
    }

    /// Another pass may start: fewer than `max_passes` have run.
    pub open spec fn can_begin(self) -> bool {
        self.spec_passes() < self.spec_opts().max_passes
    }

    /// A run of `info` under `opts` with `encoder`, whose first pass uses
    /// `plan_initial` at the budgeted raw bitrate. Refused when `max_passes`
    /// is 0.
    pub fn start(info: MediaInfo, opts: &CompressOptions, encoder: EncoderKind, raw_video_bps: i64) -> (r: Result<Self, NoPassAllowed>)
        ensures
            (r is Err) <==> opts.max_passes == 0,
            r matches Ok(s) ==> {
                &&& s.spec_passes() == 0
                &&& s.spec_opts() == *opts
                &&& s.spec_info() == info
                &&& s.spec_encoder() == encoder
                &&& s.spec_plan() == spec_plan(info, opts.keep_fps, spec_initial_audio(info, *opts), raw_video_bps as int)
                &&& s.can_begin()
            },
    {
        if opts.max_passes == 0 {
            return Err(NoPassAllowed);
        }
        let plan = plan_initial(&info, opts, raw_video_bps);
        Ok(CompressSession { passes: 0, opts: *opts, info, encoder, plan })
    }

    /// Start the next pass and describe it.
    pub fn begin_pass(&mut self) -> (pass: PassInfo)
        requires
            old(self).can_begin(),
        ensures
            final(self).spec_passes() == old(self).spec_passes() + 1,
            final(self).spec_passes() <= final(self).spec_opts().max_passes,
            final(self).spec_opts() == old(self).spec_opts(),
            final(self).spec_info() == old(self).spec_info(),
            final(self).spec_encoder() == old(self).spec_encoder(),
            final(self).spec_plan() == old(self).spec_plan(),
            pass.pass == final(self).spec_passes(),
            pass.max_passes == old(self).spec_opts().max_passes,
            pass.plan == old(self).spec_plan(),
            pass.encoder@ == spec_encoder_name(old(self).spec_encoder()),
    {
        proof {
            use_type_invariant(&*self);
        }
        self.passes = self.passes + 1;
        PassInfo {
            pass: self.passes,
            max_passes: self.opts.max_passes,
            plan: self.plan,
            encoder: String::from_str(self.encoder.name()),
        }
    }

    /// Whether another pass may start.
    pub fn may_begin(&self) -> (r: bool)
        ensures
            r == self.can_begin(),
    {
        self.passes < self.opts.max_passes
    }

    /// Judge the pass just made by the size of its output.
    pub fn record_size(&self, final_bytes: u64) -> (v: PassVerdict)
        requires
            self.spec_passes() >= 1,
        ensures
            v == spec_verdict(final_bytes, self.spec_opts().max_bytes, self.spec_passes(), self.spec_opts().max_passes),
            (v == PassVerdict::Fits) <==> final_bytes <= self.spec_opts().max_bytes,
            v == PassVerdict::Retry ==> self.can_begin(),
            v == PassVerdict::GiveUp ==> self.spec_passes() == self.spec_opts().max_passes,
    {
        proof {
            use_type_invariant(self);
        }
        if final_bytes <= self.opts.max_bytes {
            PassVerdict::Fits
        } else if self.passes >= self.opts.max_passes {
            PassVerdict::GiveUp
        } else {
            PassVerdict::Retry
        }
    }

    /// Use `shrink` of the current plan for the next pass; `raw_video_bps` is
    /// the current bitrate scaled by the measured overshoot ratio.
    pub fn shrink_plan(&mut self, raw_video_bps: i64)
        ensures
            final(self).spec_plan() == spec_shrink(old(self).spec_plan(), old(self).spec_info(), old(self).spec_opts().keep_fps, raw_video_bps as int),
            final(self).spec_plan().video_bitrate_bps <= max_int(MIN_VIDEO_BPS as int, old(self).spec_plan().video_bitrate_bps as int),
            old(self).spec_plan().video_bitrate_bps > MIN_VIDEO_BPS ==> final(self).spec_plan().video_bitrate_bps < old(self).spec_plan().video_bitrate_bps,
            final(self).spec_passes() == old(self).spec_passes(),
            final(self).spec_opts() == old(self).spec_opts(),
            final(self).spec_info() == old(self).spec_info(),
            final(self).spec_encoder() == old(self).spec_encoder(),
    {
        proof {
            use_type_invariant(&*self);
        }
        let next = self.plan.shrink(&self.info, &self.opts, raw_video_bps);
        self.plan = next;
    }

    /// Passes made so far; never more than `max_passes`.
    pub fn passes(&self) -> (r: u32)
        ensures
            r == self.spec_passes(),
            r <= self.spec_opts().max_passes,
    {
        proof {
            use_type_invariant(self);
        }
        self.passes
    }

    pub fn plan(&self) -> (r: EncodePlan)
        ensures
            r == self.spec_plan(),
    {
        self.plan
    }

    pub fn info(&self) -> (r: &MediaInfo)
        ensures
            *r == self.spec_info(),
    {
        &self.info
    }

    pub fn options(&self) -> (r: CompressOptions)
        ensures
            r == self.spec_opts(),
    {
        self.opts
    }

    pub fn encoder(&self) -> (r: EncoderKind)
        ensures
            r == self.spec_encoder(),
    {
        self.encoder
    }

    /// End the run whose last pass produced `final_bytes` bytes: its result,
    /// and the clip it was made for.
    pub fn finish(self, final_bytes: u64) -> (r: (CompressSummary, MediaInfo))
        requires
            self.spec_passes() >= 1,
        ensures
            r.0.passes >= 1,
            r.0.final_bytes == final_bytes,
            r.0.passes == self.spec_passes(),
            r.0.fits == (final_bytes <= self.spec_opts().max_bytes),
            r.0.last_plan == self.spec_plan(),
            r.0.passes <= self.spec_opts().max_passes,
            r.1 == self.spec_info(),
    {
        proof {
            use_type_invariant(&self);
        }
        let summary = CompressSummary {
            final_bytes,
            passes: self.passes,
            fits: final_bytes <= self.opts.max_bytes,
            last_plan: self.plan,
        };
        (summary, self.info)
    }
}

} // verus!
