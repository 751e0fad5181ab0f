//! A batch of conversions: which mode to try next, when to go on and when
//! to stop, and how far the batch has come.
//!
//! The records of a batch are converted one after the other. No failure of
//! one record stops the batch; only calling it off does.

use crate::convert::mp4box::{
    outcome_view, ConvertError, ConvertFailure, ConvertProgress, Progress, RemuxMode,
};
use vstd::prelude::*;

verus! {

/// What a batch does after one attempt at a record.
#[derive(Debug, Clone, Copy, PartialEq, Eq, Structural)]
pub enum BatchStep {
    /// The record is converted; go on with the next.
    Succeeded,
    /// Try the record again in this mode.
    Retry(RemuxMode),
    /// The record was skipped by its strategy; go on with the next.
    Skipped,
    /// The record has failed for good; go on with the next.
    Failed,
    /// The batch was called off; stop.
    Stop,
}

/// What a batch does after an attempt in `mode` ended in `outcome`.
///
/// The three modes are tried in order. After the tagged mode only a tool
/// that failed leads to the raw mode: a skipped record is left, a batch that
/// was called off stops, and any other failure is final. After the raw mode
/// every failure leads to the tool of last resort, and after that one every
/// failure is final. No failure of one record stops the batch.
pub open spec fn next_step(
    mode: RemuxMode,
    outcome: Result<Seq<char>, ConvertFailure>,
) -> BatchStep {
    match outcome {
        Ok(_) => BatchStep::Succeeded,
        Err(failure) => match mode {
            RemuxMode::Tagged => match failure {
                ConvertFailure::Mp4BoxFailed(_) => BatchStep::Retry(RemuxMode::Raw),
                ConvertFailure::Skipped(_) => BatchStep::Skipped,
                ConvertFailure::Cancelled => BatchStep::Stop,
                _ => BatchStep::Failed,
            },
            RemuxMode::Raw => BatchStep::Retry(RemuxMode::StreamCopy),
            RemuxMode::StreamCopy => BatchStep::Failed,
        },
    }
}

/// Decides what a batch does after one attempt at a record (see
/// `next_step`).
pub fn after_attempt(mode: RemuxMode, outcome: &Result<String, ConvertError>) -> (r: BatchStep)
    ensures
        r == next_step(mode, outcome_view(*outcome)),
{
    match outcome {
        Ok(_) => BatchStep::Succeeded,
        Err(failure) => match mode {
            RemuxMode::Tagged => match failure {
                ConvertError::Mp4BoxFailed(_) => BatchStep::Retry(RemuxMode::Raw),
                ConvertError::Skipped(_) => BatchStep::Skipped,
                ConvertError::Cancelled => BatchStep::Stop,
                _ => BatchStep::Failed,
            },
            RemuxMode::Raw => BatchStep::Retry(RemuxMode::StreamCopy),
            RemuxMode::StreamCopy => BatchStep::Failed,
        },
    }
}

/// The modes are tried in order and none twice: a retry after the tagged
/// mode is in the raw mode, one after the raw mode is in the mode of last
/// resort, and there is none after that.
pub proof fn lemma_modes_escalate(mode: RemuxMode, outcome: Result<Seq<char>, ConvertFailure>)
    ensures
        next_step(mode, outcome) is Retry ==> outcome is Err,
        mode == RemuxMode::Tagged && next_step(mode, outcome) is Retry ==> next_step(
            mode,
            outcome,
        )->Retry_0 == RemuxMode::Raw,
        mode == RemuxMode::Raw && next_step(mode, outcome) is Retry ==> next_step(
            mode,
            outcome,
        )->Retry_0 == RemuxMode::StreamCopy,
        mode == RemuxMode::StreamCopy ==> !(next_step(mode, outcome) is Retry),
        next_step(mode, outcome) is Stop ==> outcome == Err::<Seq<char>, ConvertFailure>(
            ConvertFailure::Cancelled,
        ),
{
}

/// How far a batch has come when it is at its record of index `index`, from
/// 0, of `total`: the hundredths that the records up to this one make of
/// all, rounded down, or the largest number where that does not fit.
pub open spec fn batch_percent(index: usize, total: usize) -> u32 {
    let all: int = if total < 1 {
        1
    } else {
        total as int
    };
    let percent = 100 * (index + 1) / all;
    if percent > u32::MAX {
        u32::MAX
    } else {
        percent as u32
    }
}

/// The progress of one conversion, seen from its batch.
pub open spec fn in_batch(progress: Progress, index: usize, total: usize) -> Progress {
    Progress {
        current_file: progress.current_file,
        current_index: if index < usize::MAX {
            (index + 1) as usize
        } else {
            usize::MAX
        },
        total,
        percent: batch_percent(index, total),
    }
}

/// Puts the progress of one conversion into its batch: the record is the one
/// of index `index`, from 0, of `total`, and the hundredths are those of the
/// batch (see `batch_percent`).
pub fn batch_progress(progress: ConvertProgress, index: usize, total: usize) -> (r: ConvertProgress)
    ensures
        r@ == in_batch(progress@, index, total),
{
    let all: u128 = if total < 1 {
        1
    } else {
        total as u128
    };
    let percent: u128 = 100 * (index as u128 + 1) / all;
    ConvertProgress {
        current_file: progress.current_file,
        current_index: if index < usize::MAX {
            index + 1
        } else {
            usize::MAX
        },
        total,
        percent: if percent > u32::MAX as u128 {
            u32::MAX
        } else {
            percent as u32
        },
    }
}

} // verus!
