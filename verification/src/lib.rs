//! Size-targeted H.264 compression planning: the arithmetic and decisions that
//! turn a probed clip and a byte budget into encode settings, and that drive the
//! measure-then-re-encode loop that keeps the output under a byte ceiling.

pub mod cli;
pub mod compress;
pub mod encode;
pub mod plan;
pub mod probe;
pub mod text;

pub use compress::{CompressOptions, CompressSession, CompressSummary, NoPassAllowed, PassInfo, PassVerdict};
pub use encode::{Encoder, EncoderKind};
pub use plan::{AudioAction, EncodePlan};
pub use probe::MediaInfo;
