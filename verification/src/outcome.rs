//! How a finished drag session is reported to the caller.

use vstd::prelude::*;
use crate::drop_source::{DRAGDROP_S_CANCEL, DRAGDROP_S_DROP};

verus! {

/// The drop effect of a drag that changed nothing.
pub const DROPEFFECT_NONE: u32 = 0;

/// The drop effect of a copy, the only one that a session allows: dragged
/// files are never moved away.
pub const DROPEFFECT_COPY: u32 = 1;

/// The kinds of failure of a file transfer. A cancelled drag is none of them:
/// it is how the user wanted the drag to end.
#[derive(Debug, Clone, Copy, PartialEq, Eq, Structural)]
pub enum ErrorKind {
    /// Nothing was requested, or nothing of it can be transferred.
    Validation,
    /// The session guard or the clipboard is held by another.
    Acquisition,
    /// A path cannot be encoded.
    EncodingPrecondition,
    /// A call of the platform failed.
    Platform,
}

/// How a drag session ended.
#[derive(Debug, Clone, Copy, PartialEq, Eq, Structural)]
pub enum TransferOutcome {
    /// The files were dropped on a target.
    Dropped,
    /// The user called the drag off.
    Cancelled,
    /// The drag ended and nothing took the files.
    NoEffect,
    /// The platform failed, with this status.
    Error(i32),
}

/// The outcome for the status and drop effect with which the platform ended
/// the session. A drop status is a drop; else a cancel status is a cancel,
/// whatever effect comes with it; else a failure status is an error; else a
/// success with an effect is a drop; what is left had no effect.
pub open spec fn outcome_of(status: i32, effect: u32) -> TransferOutcome {
    if status == DRAGDROP_S_DROP {
        TransferOutcome::Dropped
    } else if status == DRAGDROP_S_CANCEL {
        TransferOutcome::Cancelled
    } else if status < 0 {
        TransferOutcome::Error(status)
    } else if effect != DROPEFFECT_NONE {
        TransferOutcome::Dropped
    } else {
        TransferOutcome::NoEffect
    }
}

/// Maps the status and drop effect with which the platform ended a session to
/// its outcome.
pub fn map_outcome(status: i32, effect: u32) -> (outcome: TransferOutcome)
    ensures
        outcome == outcome_of(status, effect),
{
    if status == DRAGDROP_S_DROP {
        TransferOutcome::Dropped
    } else if status == DRAGDROP_S_CANCEL {
        TransferOutcome::Cancelled
    } else if status < 0 {
        TransferOutcome::Error(status)
    } else if effect != DROPEFFECT_NONE {
        TransferOutcome::Dropped
    } else {
        TransferOutcome::NoEffect
    }
}

/// A cancelled session is never a drop, and a failed one neither, whatever
/// drop effect is reported with it.
pub proof fn lemma_cancel_is_no_drop(status: i32, effect: u32)
    ensures
        status == DRAGDROP_S_CANCEL ==> outcome_of(status, effect) == TransferOutcome::Cancelled,
        status < 0 ==> outcome_of(status, effect) == TransferOutcome::Error(status),
        outcome_of(status, effect) == TransferOutcome::Dropped <==> status == DRAGDROP_S_DROP || (
        status >= 0 && status != DRAGDROP_S_CANCEL && effect != DROPEFFECT_NONE),
{
}

impl TransferOutcome {
    /// The kind of failure that the outcome is, if it is one.
    pub fn error_kind(&self) -> (kind: Option<ErrorKind>)
        ensures
            kind == match *self {
                TransferOutcome::Error(_) => Some(ErrorKind::Platform),
                _ => None::<ErrorKind>,
            },
    {
        match self {
            TransferOutcome::Error(_) => Some(ErrorKind::Platform),
            TransferOutcome::Dropped => None,
            TransferOutcome::Cancelled => None,
            TransferOutcome::NoEffect => None,
        }
    }

    /// Whether the outcome counts as a transfer: only a drop does. A caller
    /// given `false` cannot tell a cancel from a drag without effect or from
    /// a failure.
    pub fn succeeded(&self) -> (yes: bool)
        ensures
            yes == (*self == TransferOutcome::Dropped),
    {
        match self {
            TransferOutcome::Dropped => true,
            TransferOutcome::Cancelled => false,
            TransferOutcome::NoEffect => false,
            TransferOutcome::Error(_) => false,
        }
    }
}

} // verus!
