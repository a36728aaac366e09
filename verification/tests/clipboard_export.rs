use sukusho::clipboard::{
    copy_files_to_clipboard, export_files, ClipboardExport, ClipboardReplies, ExportFailure,
    ExportStep,
};
use sukusho::file_list::{encode, EncodeError};
use sukusho::outcome::ErrorKind;
use sukusho::paths::PathProbe;

fn wide(text: &str) -> Vec<u16> {
    text.encode_utf16().collect()
}

fn existing(path: &str) -> PathProbe {
    PathProbe { path: wide(path), absolute: true, canonical: None, exists: true }
}

fn all_well() -> ClipboardReplies {
    ClipboardReplies { open: true, clear: true, publish: true }
}

fn run(files: &Vec<PathProbe>, replies: ClipboardReplies) -> (Vec<ExportStep>, bool) {
    let mut export = ClipboardExport::new(files.len());
    let mut steps = Vec::new();
    while let Some(step) = export.pending() {
        steps.push(step);
        match step {
            ExportStep::Prepare => export.prepare(files),
            _ => export.advance(replies.reply(step)),
        }
        assert!(steps.len() <= 5);
    }
    (steps, export.copied())
}

#[test]
fn files_are_copied_when_every_call_goes_well() {
    let files = vec![existing("C:\\shots\\a.png")];
    assert!(copy_files_to_clipboard(&files, all_well()));
    let (calls, copied) = run(&files, all_well());
    assert!(copied);
    assert_eq!(
        calls,
        vec![
            ExportStep::Open,
            ExportStep::Clear,
            ExportStep::Prepare,
            ExportStep::Publish,
            ExportStep::Close
        ]
    );
}

#[test]
fn empty_request_makes_no_call() {
    assert!(!copy_files_to_clipboard(&vec![], all_well()));
    let (calls, copied) = run(&vec![], all_well());
    assert!(!copied);
    assert_eq!(calls, vec![]);
}

#[test]
fn clipboard_owned_elsewhere_fails_fast() {
    let files = vec![existing("C:\\shots\\a.png")];
    let replies = ClipboardReplies { open: false, clear: true, publish: true };
    assert!(!copy_files_to_clipboard(&files, replies));
    let (calls, copied) = run(&files, replies);
    assert!(!copied);
    assert_eq!(calls, vec![ExportStep::Open]);
}

#[test]
fn failed_clear_still_closes_once() {
    let files = vec![existing("C:\\shots\\a.png")];
    let replies = ClipboardReplies { open: true, clear: false, publish: true };
    assert!(!copy_files_to_clipboard(&files, replies));
    let (calls, copied) = run(&files, replies);
    assert!(!copied);
    assert_eq!(calls, vec![ExportStep::Open, ExportStep::Clear, ExportStep::Close]);
}

#[test]
fn failed_publish_still_closes_once() {
    let files = vec![existing("C:\\shots\\a.png")];
    let replies = ClipboardReplies { open: true, clear: true, publish: false };
    assert!(!copy_files_to_clipboard(&files, replies));
    let (calls, copied) = run(&files, replies);
    assert!(!copied);
    assert_eq!(
        calls,
        vec![
            ExportStep::Open,
            ExportStep::Clear,
            ExportStep::Prepare,
            ExportStep::Publish,
            ExportStep::Close
        ]
    );
}

#[test]
fn nothing_to_transfer_closes_without_publishing() {
    let gone = PathProbe { path: wide("C:\\gone.png"), absolute: true, canonical: None, exists: false };
    let files = vec![gone];
    assert!(!copy_files_to_clipboard(&files, all_well()));
    let (calls, copied) = run(&files, all_well());
    assert!(!copied);
    assert_eq!(
        calls,
        vec![ExportStep::Open, ExportStep::Clear, ExportStep::Prepare, ExportStep::Close]
    );
}

#[test]
fn a_path_with_nul_closes_without_publishing() {
    let bad = PathProbe { path: vec![0x43, 0, 0x44], absolute: true, canonical: None, exists: true };
    let files = vec![bad];
    assert!(!copy_files_to_clipboard(&files, all_well()));
    let (calls, _) = run(&files, all_well());
    assert_eq!(
        calls,
        vec![ExportStep::Open, ExportStep::Clear, ExportStep::Prepare, ExportStep::Close]
    );
    let mut export = ClipboardExport::new(files.len());
    export.advance(true);
    export.advance(true);
    export.prepare(&files);
    assert!(export.payload().is_none());
    assert_eq!(export.pending(), Some(ExportStep::Close));
}

#[test]
fn close_is_made_once_for_every_combination_of_replies() {
    let files = vec![existing("C:\\shots\\a.png")];
    for bits in 0..8 {
        let replies = ClipboardReplies { open: bits & 1 != 0, clear: bits & 2 != 0, publish: bits & 4 != 0 };
        let (calls, copied) = run(&files, replies);
        let closes = calls.iter().filter(|call| **call == ExportStep::Close).count();
        let opens = calls.iter().filter(|call| **call == ExportStep::Open).count();
        assert_eq!(opens, 1);
        assert_eq!(closes, if replies.open { 1 } else { 0 });
        if replies.open {
            assert_eq!(calls.last(), Some(&ExportStep::Close));
        }
        assert_eq!(copied, bits == 7);
        assert_eq!(copy_files_to_clipboard(&files, replies), bits == 7);
    }
}

#[test]
fn the_payload_is_that_of_the_normalized_paths() {
    let files = vec![existing("\\\\?\\C:\\shots\\a.png"), existing("C:\\b.png")];
    let mut export = ClipboardExport::new(files.len());
    assert_eq!(export.pending(), Some(ExportStep::Open));
    assert_eq!(export.payload(), None);
    export.advance(true);
    export.advance(true);
    assert_eq!(export.pending(), Some(ExportStep::Prepare));
    assert_eq!(export.payload(), None);
    export.prepare(&files);
    assert_eq!(export.pending(), Some(ExportStep::Publish));
    assert_eq!(export.payload(), Some(&encode(&vec![wide("C:\\shots\\a.png"), wide("C:\\b.png")]).unwrap()));
    assert!(!export.copied());
}

#[test]
fn advancing_a_finished_export_changes_nothing() {
    let mut export = ClipboardExport::new(0);
    export.advance(true);
    export.prepare(&vec![existing("C:\\a.png")]);
    assert_eq!(export.pending(), None);
    assert!(!export.copied());
}

#[test]
fn each_failure_is_reported() {
    let good = vec![existing("C:\\shots\\a.png")];
    let gone = vec![PathProbe { path: wide("C:\\gone.png"), absolute: true, canonical: None, exists: false }];
    let bad = vec![PathProbe { path: vec![0x43, 0, 0x44], absolute: true, canonical: None, exists: true }];
    assert_eq!(export_files(&good, all_well()), Ok(()));
    assert_eq!(export_files(&vec![], all_well()), Err(ExportFailure::EmptyRequest));
    let busy = ClipboardReplies { open: false, clear: false, publish: false };
    assert_eq!(export_files(&good, busy), Err(ExportFailure::ClipboardBusy));
    assert_eq!(export_files(&gone, busy), Err(ExportFailure::ClipboardBusy));
    let stuck = ClipboardReplies { open: true, clear: false, publish: true };
    assert_eq!(export_files(&good, stuck), Err(ExportFailure::ClearFailed));
    assert_eq!(export_files(&gone, stuck), Err(ExportFailure::ClearFailed));
    assert_eq!(export_files(&gone, all_well()), Err(ExportFailure::EmptyTransfer));
    assert_eq!(
        export_files(&bad, all_well()),
        Err(ExportFailure::Encoding(EncodeError::EmbeddedNul { path: 0 }))
    );
    let refused = ClipboardReplies { open: true, clear: true, publish: false };
    assert_eq!(export_files(&good, refused), Err(ExportFailure::PublishFailed));
}

#[test]
fn the_export_tells_what_went_wrong_as_it_goes() {
    let files = vec![existing("C:\\shots\\a.png")];
    let mut export = ClipboardExport::new(files.len());
    assert_eq!(export.failure(), None);
    export.advance(true);
    export.advance(true);
    export.prepare(&files);
    assert_eq!(export.pending(), Some(ExportStep::Publish));
    export.advance(false);
    assert_eq!(export.failure(), Some(ExportFailure::PublishFailed));
    assert_eq!(export.pending(), Some(ExportStep::Close));
    export.advance(false);
    assert_eq!(export.pending(), None);
    assert_eq!(export.failure(), Some(ExportFailure::PublishFailed));
    assert!(!export.copied());
    assert_eq!(ClipboardExport::new(0).failure(), Some(ExportFailure::EmptyRequest));
}

#[test]
fn failures_have_their_kind() {
    assert_eq!(ExportFailure::EmptyRequest.kind(), ErrorKind::Validation);
    assert_eq!(ExportFailure::EmptyTransfer.kind(), ErrorKind::Validation);
    assert_eq!(ExportFailure::ClipboardBusy.kind(), ErrorKind::Acquisition);
    assert_eq!(ExportFailure::Encoding(EncodeError::TooLarge).kind(), ErrorKind::EncodingPrecondition);
    assert_eq!(ExportFailure::ClearFailed.kind(), ErrorKind::Platform);
    assert_eq!(ExportFailure::PublishFailed.kind(), ErrorKind::Platform);
}

#[test]
fn a_reply_that_does_not_fit_the_step_changes_nothing() {
    let files = vec![existing("C:\\shots\\a.png")];
    let mut export = ClipboardExport::new(files.len());
    export.prepare(&files);
    assert_eq!(export.pending(), Some(ExportStep::Open));
    assert_eq!(export.payload(), None);
    export.advance(true);
    export.prepare(&files);
    assert_eq!(export.pending(), Some(ExportStep::Clear));
    export.advance(true);
    assert_eq!(export.pending(), Some(ExportStep::Prepare));
    export.advance(true);
    export.advance(false);
    assert_eq!(export.pending(), Some(ExportStep::Prepare));
    assert_eq!(export.failure(), None);
    export.prepare(&files);
    export.prepare(&vec![]);
    assert_eq!(export.pending(), Some(ExportStep::Publish));
    assert!(export.payload().is_some());
}

#[test]
fn paths_are_looked_at_only_after_the_clipboard_is_emptied() {
    let files = vec![existing("C:\\shots\\a.png")];
    for bits in 0..8 {
        let replies = ClipboardReplies { open: bits & 1 != 0, clear: bits & 2 != 0, publish: bits & 4 != 0 };
        let (steps, _) = run(&files, replies);
        let prepared = steps.iter().position(|step| *step == ExportStep::Prepare);
        assert_eq!(prepared.is_some(), replies.open && replies.clear);
        if let Some(at) = prepared {
            assert_eq!(&steps[..at], &[ExportStep::Open, ExportStep::Clear]);
        }
    }
}
