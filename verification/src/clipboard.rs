//! Putting files on the clipboard.
//!
//! The clipboard belongs to one owner at a time, and the platform decides who
//! that is. An export therefore goes step by step: it names what is to be
//! done next, is told how that went, and names the next step. The clipboard
//! is taken and emptied first; only then are the requested paths looked at
//! and laid out; the payload is published; and whatever goes wrong on the
//! way, an export that took the clipboard gives it back, once.

use vstd::prelude::*;
use crate::file_list::{encode, encoding, EncodeError};
use crate::outcome::ErrorKind;
use crate::paths::{normalize, normalized, PathProbe};

verus! {

/// What is to be done next for an export.
#[derive(Debug, Clone, Copy, PartialEq, Eq, Structural)]
pub enum ExportStep {
    /// Take the clipboard. Fails where another owner holds it.
    Open,
    /// Empty the clipboard.
    Clear,
    /// Ask the file system about the requested paths and hand the answers
    /// over with `prepare`.
    Prepare,
    /// Put the export's payload on the clipboard as a file list. The payload
    /// belongs to the clipboard from then on.
    Publish,
    /// Give the clipboard back.
    Close,
}

/// Why an export put nothing on the clipboard.
#[derive(Debug, Clone, Copy, PartialEq, Eq, Structural)]
pub enum ExportFailure {
    /// No path was requested.
    EmptyRequest,
    /// The clipboard could not be taken.
    ClipboardBusy,
    /// The clipboard could not be emptied.
    ClearFailed,
    /// None of the requested paths can be transferred.
    EmptyTransfer,
    /// The paths have no payload.
    Encoding(EncodeError),
    /// The payload could not be put on the clipboard.
    PublishFailed,
}

/// How the platform's calls go, where they are made.
#[derive(Debug, Clone, Copy, PartialEq, Eq, Structural)]
pub struct ClipboardReplies {
    /// Whether the clipboard can be taken.
    pub open: bool,
    /// Whether the clipboard can be emptied.
    pub clear: bool,
    /// Whether the payload can be put on the clipboard.
    pub publish: bool,
}

/// An export under way.
pub struct ClipboardExport {
    pending: Option<ExportStep>,
    payload: Option<Vec<u8>>,
    failure: Option<ExportFailure>,
    copied: bool,
}

/// What an export under way consists of.
pub struct ExportState {
    /// The step to be done next; `None` when the export is over.
    pub pending: Option<ExportStep>,
    /// The payload of the request, once it is laid out.
    pub payload: Option<Seq<u8>>,
    /// What went wrong, if anything did so far.
    pub failure: Option<ExportFailure>,
    /// Whether the payload is on the clipboard.
    pub copied: bool,
}

/// What an export is told of a step.
pub enum StepReply {
    /// A call of the platform went well (`true`) or failed.
    Went(bool),
    /// The file system said this of the requested paths.
    Probed(Seq<PathProbe>),
}

impl View for ClipboardExport {
    type V = ExportState;

    closed spec fn view(&self) -> ExportState {
        ExportState {
            pending: self.pending,
            payload: match self.payload {
                Some(bytes) => Some(bytes@),
                None => None,
            },
            failure: self.failure,
            copied: self.copied,
        }
    }
}

/// The payload of a request: that of its transfer-ready list, where the list
/// is not empty and can be encoded.
pub open spec fn prepared(probes: Seq<PathProbe>) -> Result<Seq<u8>, ExportFailure> {
    if normalized(probes).len() == 0 {
        Err(ExportFailure::EmptyTransfer)
    } else {
        match encoding(normalized(probes)) {
            Ok(bytes) => Ok(bytes),
            Err(error) => Err(ExportFailure::Encoding(error)),
        }
    }
}

/// The state in which the export of so many requested paths begins. A
/// request without paths is over before it begins; any other takes the
/// clipboard first.
pub open spec fn first_state(requested: nat) -> ExportState {
    if requested == 0 {
        ExportState {
            pending: None,
            payload: None,
            failure: Some(ExportFailure::EmptyRequest),
            copied: false,
        }
    } else {
        ExportState { pending: Some(ExportStep::Open), payload: None, failure: None, copied: false }
    }
}

/// The state after the export was told of the pending step.
///
/// A clipboard that cannot be taken ends the export. Once it is taken, every
/// way leads through `Close`: where it cannot be emptied, it is closed at
/// once; after it was emptied, the paths are looked at, and where they have
/// no payload it is closed; else the payload is published, and then it is
/// closed. How `Close` itself went changes nothing, and neither does a reply
/// that does not belong to the pending step.
pub open spec fn next_state(state: ExportState, reply: StepReply) -> ExportState {
    match (state.pending, reply) {
        (Some(ExportStep::Open), StepReply::Went(ok)) => if ok {
            ExportState { pending: Some(ExportStep::Clear), ..state }
        } else {
            ExportState { pending: None, failure: Some(ExportFailure::ClipboardBusy), ..state }
        },
        (Some(ExportStep::Clear), StepReply::Went(ok)) => if ok {
            ExportState { pending: Some(ExportStep::Prepare), ..state }
        } else {
            ExportState {
                pending: Some(ExportStep::Close),
                failure: Some(ExportFailure::ClearFailed),
                ..state
            }
        },
        (Some(ExportStep::Prepare), StepReply::Probed(probes)) => match prepared(probes) {
            Ok(bytes) => ExportState {
                pending: Some(ExportStep::Publish),
                payload: Some(bytes),
                ..state
            },
            Err(failure) => ExportState {
                pending: Some(ExportStep::Close),
                failure: Some(failure),
                ..state
            },
        },
        (Some(ExportStep::Publish), StepReply::Went(ok)) => if ok {
            ExportState { pending: Some(ExportStep::Close), copied: true, ..state }
        } else {
            ExportState {
                pending: Some(ExportStep::Close),
                failure: Some(ExportFailure::PublishFailed),
                ..state
            }
        },
        (Some(ExportStep::Close), StepReply::Went(_)) => ExportState { pending: None, ..state },
        _ => state,
    }
}

/// How a call of the platform goes, by the replies. Closing is taken to go
/// well, and looking at the paths is no call of the platform's.
pub open spec fn went(replies: ClipboardReplies, step: ExportStep) -> bool {
    match step {
        ExportStep::Open => replies.open,
        ExportStep::Clear => replies.clear,
        ExportStep::Publish => replies.publish,
        ExportStep::Prepare | ExportStep::Close => true,
    }
}

/// What an export is told of a step, when the platform's calls go as the
/// replies say and the file system says `probes` of the requested paths.
pub open spec fn reply_to(
    step: ExportStep,
    replies: ClipboardReplies,
    probes: Seq<PathProbe>,
) -> StepReply {
    if step == ExportStep::Prepare {
        StepReply::Probed(probes)
    } else {
        StepReply::Went(went(replies, step))
    }
}

/// An upper bound on the steps still to come.
pub open spec fn steps_left(pending: Option<ExportStep>) -> nat {
    match pending {
        None => 0,
        Some(ExportStep::Close) => 1,
        Some(ExportStep::Publish) => 2,
        Some(ExportStep::Prepare) => 3,
        Some(ExportStep::Clear) => 4,
        Some(ExportStep::Open) => 5,
    }
}

/// The steps of an export from a state on, in order.
pub open spec fn steps_from(
    state: ExportState,
    replies: ClipboardReplies,
    probes: Seq<PathProbe>,
) -> Seq<ExportStep>
    decreases steps_left(state.pending),
{
    match state.pending {
        None => Seq::empty(),
        Some(step) => seq![step] + steps_from(
            next_state(state, reply_to(step, replies, probes)),
            replies,
            probes,
        ),
    }
}

/// The state in which an export ends when it goes on from `state`.
pub open spec fn last_state(
    state: ExportState,
    replies: ClipboardReplies,
    probes: Seq<PathProbe>,
) -> ExportState
    decreases steps_left(state.pending),
{
    match state.pending {
        None => state,
        Some(step) => last_state(
            next_state(state, reply_to(step, replies, probes)),
            replies,
            probes,
        ),
    }
}

/// What comes of the export of a request when the calls go as the replies
/// say: nothing, where everything went well, or the first thing that went
/// wrong. The steps are taken in this order: there must be a request; the
/// clipboard must be taken, then emptied; the request must have a payload;
/// and the payload must be published.
pub open spec fn export_result(probes: Seq<PathProbe>, replies: ClipboardReplies) -> Result<
    (),
    ExportFailure,
> {
    if probes.len() == 0 {
        Err(ExportFailure::EmptyRequest)
    } else if !replies.open {
        Err(ExportFailure::ClipboardBusy)
    } else if !replies.clear {
        Err(ExportFailure::ClearFailed)
    } else if prepared(probes) is Err {
        Err(prepared(probes)->Err_0)
    } else if !replies.publish {
        Err(ExportFailure::PublishFailed)
    } else {
        Ok(())
    }
}

/// Whether the export of a request puts its files on the clipboard.
pub open spec fn copies(probes: Seq<PathProbe>, replies: ClipboardReplies) -> bool {
    export_result(probes, replies) is Ok
}

impl ExportFailure {
    /// The kind of failure that this is.
    pub fn kind(&self) -> (kind: ErrorKind)
        ensures
            kind == match *self {
                ExportFailure::EmptyRequest | ExportFailure::EmptyTransfer => ErrorKind::Validation,
                ExportFailure::ClipboardBusy => ErrorKind::Acquisition,
                ExportFailure::Encoding(_) => ErrorKind::EncodingPrecondition,
                ExportFailure::ClearFailed | ExportFailure::PublishFailed => ErrorKind::Platform,
            },
    {
        match self {
            ExportFailure::EmptyRequest => ErrorKind::Validation,
            ExportFailure::EmptyTransfer => ErrorKind::Validation,
            ExportFailure::ClipboardBusy => ErrorKind::Acquisition,
            ExportFailure::Encoding(_) => ErrorKind::EncodingPrecondition,
            ExportFailure::ClearFailed => ErrorKind::Platform,
            ExportFailure::PublishFailed => ErrorKind::Platform,
        }
    }
}

impl ClipboardReplies {
    /// How a call of the platform goes.
    pub fn reply(&self, step: ExportStep) -> (ok: bool)
        ensures
            ok == went(*self, step),
    {
        match step {
            ExportStep::Open => self.open,
            ExportStep::Clear => self.clear,
            ExportStep::Publish => self.publish,
            ExportStep::Prepare => true,
            ExportStep::Close => true,
        }
    }
}

impl ClipboardExport {
    /// Begins the export of a request of so many paths. Nothing is asked of
    /// the file system yet.
    pub fn new(requested: usize) -> (export: ClipboardExport)
        ensures
            export@ == first_state(requested as nat),
    {
        if requested == 0 {
            ClipboardExport {
                pending: None,
                payload: None,
                failure: Some(ExportFailure::EmptyRequest),
                copied: false,
            }
        } else {
            ClipboardExport {
                pending: Some(ExportStep::Open),
                payload: None,
                failure: None,
                copied: false,
            }
        }
    }

    /// The step to be done now, or `None` when the export is over.
    pub fn pending(&self) -> (step: Option<ExportStep>)
        ensures
            step == self@.pending,
    {
        self.pending
    }

    /// The payload to publish, once it is laid out.
    pub fn payload(&self) -> (payload: Option<&Vec<u8>>)
        ensures
            match payload {
                Some(bytes) => self@.payload == Some(bytes@),
                None => self@.payload is None,
            },
    {
        match &self.payload {
            Some(bytes) => Some(bytes),
            None => None,
        }
    }

    /// What went wrong, if anything did so far.
    pub fn failure(&self) -> (failure: Option<ExportFailure>)
        ensures
            failure == self@.failure,
    {
        self.failure
    }

    /// Whether the payload is on the clipboard.
    pub fn copied(&self) -> (copied: bool)
        ensures
            copied == self@.copied,
    {
        self.copied
    }

    /// Takes note of how the pending call of the platform went and moves on
    /// to the next step. Nothing changes while the paths are waited for.
    pub fn advance(&mut self, ok: bool)
        ensures
            final(self)@ == next_state(old(self)@, StepReply::Went(ok)),
    {
        match self.pending {
            None => {},
            Some(ExportStep::Open) => {
                if ok {
                    self.pending = Some(ExportStep::Clear);
                } else {
                    self.pending = None;
                    self.failure = Some(ExportFailure::ClipboardBusy);
                }
            },
            Some(ExportStep::Clear) => {
                if ok {
                    self.pending = Some(ExportStep::Prepare);
                } else {
                    self.pending = Some(ExportStep::Close);
                    self.failure = Some(ExportFailure::ClearFailed);
                }
            },
            Some(ExportStep::Prepare) => {},
            Some(ExportStep::Publish) => {
                if ok {
                    self.copied = true;
                } else {
                    self.failure = Some(ExportFailure::PublishFailed);
                }
                self.pending = Some(ExportStep::Close);
            },
            Some(ExportStep::Close) => {
                self.pending = None;
            },
        }
    }

    /// Takes what the file system said of the requested paths, makes them
    /// ready for transfer and lays them out. Nothing changes unless the
    /// paths are waited for.
    pub fn prepare(&mut self, probes: &Vec<PathProbe>)
        ensures
            final(self)@ == next_state(old(self)@, StepReply::Probed(probes@)),
    {
        match self.pending {
            Some(ExportStep::Prepare) => {
                let paths = normalize(probes);
                if paths.len() == 0 {
                    self.failure = Some(ExportFailure::EmptyTransfer);
                    self.pending = Some(ExportStep::Close);
                } else {
                    match encode(&paths) {
                        Ok(bytes) => {
                            self.payload = Some(bytes);
                            self.pending = Some(ExportStep::Publish);
                        },
                        Err(error) => {
                            self.failure = Some(ExportFailure::Encoding(error));
                            self.pending = Some(ExportStep::Close);
                        },
                    }
                }
            },
            _ => {},
        }
    }
}

/// Runs the export of a request when the platform's calls go as the replies
/// say, and tells what came of it.
pub fn export_files(probes: &Vec<PathProbe>, replies: ClipboardReplies) -> (result: Result<
    (),
    ExportFailure,
>)
    ensures
        result == export_result(probes@, replies),
{
    let mut export = ClipboardExport::new(probes.len());
    proof {
        lemma_export_ends(probes@, replies);
    }
    loop
        invariant
            last_state(export@, replies, probes@) == last_state(
                first_state(probes@.len()),
                replies,
                probes@,
            ),
        ensures
            export@ == last_state(first_state(probes@.len()), replies, probes@),
        decreases steps_left(export@.pending),
    {
        match export.pending() {
            Some(ExportStep::Prepare) => {
                export.prepare(probes);
            },
            Some(step) => {
                export.advance(replies.reply(step));
            },
            None => {
                break ;
            },
        }
    }
    match export.failure() {
        Some(failure) => Err(failure),
        None => Ok(()),
    }
}

/// Exports a request when the platform's calls go as the replies say, and
/// tells whether the files are on the clipboard. Why they are not is not
/// told.
pub fn copy_files_to_clipboard(probes: &Vec<PathProbe>, replies: ClipboardReplies) -> (copied: bool)
    ensures
        copied == copies(probes@, replies),
{
    export_files(probes, replies).is_ok()
}

/// An export ends with the files on the clipboard exactly when nothing went
/// wrong, and what it reports is the first thing that did.
pub proof fn lemma_export_ends(probes: Seq<PathProbe>, replies: ClipboardReplies)
    ensures
        last_state(first_state(probes.len()), replies, probes).pending is None,
        last_state(first_state(probes.len()), replies, probes).copied == copies(probes, replies),
        last_state(first_state(probes.len()), replies, probes).failure == match export_result(
            probes,
            replies,
        ) {
            Ok(_) => None::<ExportFailure>,
            Err(failure) => Some(failure),
        },
{
    reveal_with_fuel(last_state, 6);
}

/// The steps of an export, whatever the replies: none for a request without
/// paths; else `Open` first and only once; and where the clipboard was taken,
/// `Close` last and only once, also when emptying or publishing failed. A
/// clipboard that was not taken is not closed. The paths are looked at only
/// once the clipboard is taken and emptied, and a payload is published only
/// where they have one.
pub proof fn lemma_closes_once(probes: Seq<PathProbe>, replies: ClipboardReplies)
    ensures
        ({
            let steps = steps_from(first_state(probes.len()), replies, probes);
            let opened = probes.len() > 0 && replies.open;
            &&& probes.len() == 0 <==> steps.len() == 0
            &&& forall|k: int|
                0 <= k < steps.len() ==> (#[trigger] steps[k] == ExportStep::Open <==> k == 0)
            &&& forall|k: int|
                0 <= k < steps.len() ==> (#[trigger] steps[k] == ExportStep::Close <==> opened
                    && k == steps.len() - 1)
            &&& steps.contains(ExportStep::Prepare) <==> opened && replies.clear
            &&& steps.contains(ExportStep::Publish) <==> opened && replies.clear && prepared(
                probes,
            ) is Ok
        }),
{
    reveal_with_fuel(steps_from, 6);
    let steps = steps_from(first_state(probes.len()), replies, probes);
    if probes.len() == 0 {
        assert(steps =~= Seq::<ExportStep>::empty());
    } else if !replies.open {
        assert(steps =~= seq![ExportStep::Open]);
    } else if !replies.clear {
        assert(steps =~= seq![ExportStep::Open, ExportStep::Clear, ExportStep::Close]);
    } else if prepared(probes) is Ok {
        assert(steps =~= seq![
            ExportStep::Open,
            ExportStep::Clear,
            ExportStep::Prepare,
            ExportStep::Publish,
            ExportStep::Close,
        ]);
        assert(steps[2] == ExportStep::Prepare);
        assert(steps[3] == ExportStep::Publish);
    } else {
        assert(steps =~= seq![
            ExportStep::Open,
            ExportStep::Clear,
            ExportStep::Prepare,
            ExportStep::Close,
        ]);
        assert(steps[2] == ExportStep::Prepare);
    }
}

} // verus!
