//! Turning a pair of fragments into one file: the repair of their headers,
//! the steps of one conversion, and the course of a batch.

pub mod batch;
pub mod mp4box;
pub mod repair;

pub use batch::{after_attempt, batch_progress, BatchStep};
pub use mp4box::{
    build_remux_args, convert_one, convert_one_ffmpeg, convert_one_raw, convert_step,
    ConvertAction, ConvertError, ConvertEvent, ConvertJob, ConvertProgress, ConvertState,
    RemuxMode,
};
pub use repair::{ensure_clean_m4s, is_padded, strip_padding, TempCleanup};
