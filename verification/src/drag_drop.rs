//! Dragging files out of the application.

use vstd::prelude::*;
use crate::guard::{start_result, DragGuard, GuardState, NotStarted};
use crate::drop_source::DRAGDROP_S_CANCEL;
use crate::outcome::{outcome_of, TransferOutcome};
use crate::paths::{normalized, PathProbe};

verus! {

/// What the platform reports when the blocking drag loop returns.
#[derive(Debug, Clone, Copy, PartialEq, Eq, Structural)]
pub struct ShellReport {
    /// The status with which the loop ended.
    pub status: i32,
    /// The drop effect that the target chose.
    pub effect: u32,
}

/// A position on the screen.
#[derive(Debug, Clone, Copy, PartialEq, Eq, Structural)]
pub struct Point {
    pub x: i32,
    pub y: i32,
}

/// What the platform is asked in order to tell a drag from a click: whether
/// the pointer, starting from `origin` over the window `window`, leaves the
/// platform's drag rectangle while the button is held.
#[derive(Debug, Clone, Copy, PartialEq, Eq, Structural)]
pub struct DragDetection {
    pub window: isize,
    pub origin: Point,
}

/// The state in which a drag leaves the guard, and whether it ended in a
/// drop, for a request, a guard and what the platform reported of the
/// session. Where no session starts, the report plays no part.
pub open spec fn drag_result(state: GuardState, probes: Seq<PathProbe>, report: ShellReport) -> (
    GuardState,
    bool,
) {
    match start_result(state, probes).1 {
        Ok(_) => (
            GuardState::Idle,
            outcome_of(report.status, report.effect) == TransferOutcome::Dropped,
        ),
        Err(_) => (start_result(state, probes).0, false),
    }
}

/// Runs one drag from start to end: asks the guard for a session, and where
/// one starts, ends it with what the platform reported of it. Returns `true`
/// only for a drop.
///
/// The platform's drag loop blocks for the whole gesture and has no timeout;
/// it runs between the start and the end, and `report` is what it returned.
pub fn start_drag(guard: &mut DragGuard, probes: &Vec<PathProbe>, report: ShellReport) -> (dropped:
    bool)
    ensures
        final(guard)@ == drag_result(old(guard)@, probes@, report).0,
        dropped == drag_result(old(guard)@, probes@, report).1,
{
    match guard.start(probes) {
        Ok(_) => guard.finish(report.status, report.effect).succeeded(),
        Err(_) => false,
    }
}

/// What the platform has to be asked to tell a drag from a click, or `None`
/// where the pointer's position or the window is not known and the answer is
/// no without asking.
pub fn drag_detection(cursor: Option<Point>, window: Option<isize>) -> (request: Option<
    DragDetection,
>)
    ensures
        request == match (cursor, window) {
            (Some(origin), Some(handle)) => Some(DragDetection { window: handle, origin }),
            _ => None::<DragDetection>,
        },
{
    match cursor {
        Some(origin) => match window {
            Some(handle) => Some(DragDetection { window: handle, origin }),
            None => None,
        },
        None => None,
    }
}

/// Whether the pointer has moved far enough from where the button went down
/// to start a drag: the pointer's position and the window must be known, and
/// the platform must have detected a drag. `detected` is read only where the
/// platform was asked.
pub fn check_drag_threshold(cursor: Option<Point>, window: Option<isize>, detected: bool) -> (exceeded:
    bool)
    ensures
        exceeded == (cursor is Some && window is Some && detected),
{
    match drag_detection(cursor, window) {
        Some(_) => detected,
        None => false,
    }
}

/// A drag that the platform ends with the cancel status, or with a failure,
/// reports no drop, whatever guard, request and drop effect it comes with.
pub proof fn lemma_cancelled_drag_reports_no_drop(
    state: GuardState,
    probes: Seq<PathProbe>,
    report: ShellReport,
)
    requires
        report.status == DRAGDROP_S_CANCEL || report.status < 0,
    ensures
        !drag_result(state, probes, report).1,
{
}

/// While a session is under way, a second start is turned away: whatever is
/// requested, there is no second session and the drag reports no drop.
pub proof fn lemma_second_start_rejected(
    first: Seq<PathProbe>,
    second: Seq<PathProbe>,
    report: ShellReport,
)
    requires
        start_result(GuardState::Idle, first).1 is Ok,
    ensures
        start_result(GuardState::Idle, first).0 == GuardState::Active,
        start_result(GuardState::Active, second).1 is Err,
        second.len() > 0 ==> start_result(GuardState::Active, second).1 == Err::<
            Seq<Seq<u16>>,
            NotStarted,
        >(NotStarted::AlreadyActive),
        !drag_result(GuardState::Active, second, report).1,
{
}

/// After a drag, the guard is idle, whether the drag ended in a drop, a
/// cancel or a failure or never started, and a start that follows is granted
/// whenever one of its paths can be transferred. The one exception is a
/// request without paths, which leaves the guard as it was.
pub proof fn lemma_idle_after_drag(
    state: GuardState,
    probes: Seq<PathProbe>,
    report: ShellReport,
    next: Seq<PathProbe>,
)
    requires
        probes.len() > 0 || state == GuardState::Idle,
    ensures
        drag_result(state, probes, report).0 == GuardState::Idle,
        normalized(next).len() > 0 ==> start_result(
            drag_result(state, probes, report).0,
            next,
        ).1 == Ok::<Seq<Seq<u16>>, NotStarted>(normalized(next)),
{
    if next.len() == 0 {
        assert(normalized(next).len() == 0);
    }
}

} // verus!
