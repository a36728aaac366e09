//! The drag session guard: at most one drag at a time.
//!
//! The guard is an explicit value that the application makes once and hands
//! to whoever starts drags. A start is either granted or turned away at once;
//! nothing waits.

use vstd::prelude::*;
use crate::file_list::path_views;
use crate::outcome::{map_outcome, outcome_of, ErrorKind, TransferOutcome};
use crate::paths::{normalize, normalized, PathProbe};
use crate::provider::{answers, respond, DataAnswer, DataQuery};

verus! {

/// Where the guard stands.
#[derive(Debug, Clone, Copy, PartialEq, Eq, Structural)]
pub enum GuardState {
    /// No drag is under way.
    Idle,
    /// A start was granted and its paths are being made ready.
    Starting,
    /// A session is under way.
    Active,
    /// A session is over and is being reported.
    Ending,
}

/// Why a drag did not start.
#[derive(Debug, Clone, Copy, PartialEq, Eq, Structural)]
pub enum NotStarted {
    /// No path was requested.
    EmptyRequest,
    /// The guard was not idle.
    AlreadyActive,
    /// None of the requested paths can be transferred.
    EmptyTransfer,
}

/// The paths of one drag, from its start to its end.
pub struct DragSession {
    paths: Vec<Vec<u16>>,
}

/// The guard itself.
pub struct DragGuard {
    state: GuardState,
}

/// Leave to open a session, given by a guard that was idle and used up when
/// the session is opened.
pub struct StartGrant {
    granted: bool,
}

impl View for DragSession {
    type V = Seq<Seq<u16>>;

    closed spec fn view(&self) -> Seq<Seq<u16>> {
        path_views(self.paths@)
    }
}

impl View for DragGuard {
    type V = GuardState;

    closed spec fn view(&self) -> GuardState {
        self.state
    }
}

/// The state in which a granted start leaves the guard once its paths are
/// known, and what it gives: the session is under way with the
/// transfer-ready list of the request, or, where that list is empty, the
/// guard is idle again and there is no session.
pub open spec fn activation(probes: Seq<PathProbe>) -> (
    GuardState,
    Result<Seq<Seq<u16>>, NotStarted>,
) {
    if normalized(probes).len() == 0 {
        (GuardState::Idle, Err(NotStarted::EmptyTransfer))
    } else {
        (GuardState::Active, Ok(normalized(probes)))
    }
}

/// The state in which a start leaves the guard, and what it gives: the
/// session's paths, or the reason there is no session.
///
/// A request without paths is turned away before the guard is looked at. A
/// guard that is not idle turns the start away and is put back to idle, so
/// that a guard left behind by a session that never ended cannot block drags
/// for good; the session that may still be under way is not told. An idle
/// guard grants the start; if none of the paths can be transferred it goes
/// back to idle, else the session is under way.
pub open spec fn start_result(state: GuardState, probes: Seq<PathProbe>) -> (
    GuardState,
    Result<Seq<Seq<u16>>, NotStarted>,
) {
    if probes.len() == 0 {
        (state, Err(NotStarted::EmptyRequest))
    } else if state != GuardState::Idle {
        (GuardState::Idle, Err(NotStarted::AlreadyActive))
    } else {
        activation(probes)
    }
}

impl NotStarted {
    /// The kind of failure that the reason is: a guard that is not idle
    /// could not be acquired; the other reasons are faults of the request.
    pub fn kind(&self) -> (kind: ErrorKind)
        ensures
            kind == match *self {
                NotStarted::AlreadyActive => ErrorKind::Acquisition,
                _ => ErrorKind::Validation,
            },
    {
        match self {
            NotStarted::EmptyRequest => ErrorKind::Validation,
            NotStarted::AlreadyActive => ErrorKind::Acquisition,
            NotStarted::EmptyTransfer => ErrorKind::Validation,
        }
    }
}

impl DragSession {
    #[verifier::type_invariant]
    spec fn has_paths(self) -> bool {
        self.paths.len() > 0
    }

    /// The transfer-ready paths of the session, of which there is at least
    /// one.
    pub fn paths(&self) -> (paths: &Vec<Vec<u16>>)
        ensures
            path_views(paths@) == self@,
            paths.len() > 0,
    {
        proof {
            use_type_invariant(self);
        }
        &self.paths
    }

    /// Answers a question of the desktop shell about the session's data.
    pub fn respond(&self, query: DataQuery) -> (answer: DataAnswer)
        ensures
            answers(self@, query, answer),
    {
        respond(&self.paths, query)
    }
}

impl DragGuard {
    /// A guard with no drag under way.
    pub fn new() -> (guard: DragGuard)
        ensures
            guard@ == GuardState::Idle,
    {
        DragGuard { state: GuardState::Idle }
    }

    /// Where the guard stands.
    pub fn state(&self) -> (state: GuardState)
        ensures
            state == self@,
    {
        self.state
    }

    /// Whether no drag is under way.
    pub fn is_idle(&self) -> (idle: bool)
        ensures
            idle == (self@ == GuardState::Idle),
    {
        match self.state {
            GuardState::Idle => true,
            GuardState::Starting => false,
            GuardState::Active => false,
            GuardState::Ending => false,
        }
    }

    /// Takes the guard if it is idle, before anything is asked of the file
    /// system. A guard that is not idle is put back to idle and the caller is
    /// turned away at once.
    pub fn try_acquire(&mut self) -> (grant: Option<StartGrant>)
        ensures
            grant is Some <==> old(self)@ == GuardState::Idle,
            final(self)@ == if grant is Some {
                GuardState::Starting
            } else {
                GuardState::Idle
            },
    {
        match self.state {
            GuardState::Idle => {
                self.state = GuardState::Starting;
                Some(StartGrant { granted: true })
            },
            GuardState::Starting => {
                self.state = GuardState::Idle;
                None
            },
            GuardState::Active => {
                self.state = GuardState::Idle;
                None
            },
            GuardState::Ending => {
                self.state = GuardState::Idle;
                None
            },
        }
    }

    /// Makes the paths of a granted start ready and opens the session, or
    /// gives the guard back where nothing can be transferred.
    pub fn activate(&mut self, grant: StartGrant, probes: &Vec<PathProbe>) -> (result: Result<
        DragSession,
        NotStarted,
    >)
        ensures
            final(self)@ == activation(probes@).0,
            match result {
                Ok(session) => activation(probes@).1 == Ok::<Seq<Seq<u16>>, NotStarted>(session@),
                Err(reason) => activation(probes@).1 == Err::<Seq<Seq<u16>>, NotStarted>(reason),
            },
    {
        let paths = normalize(probes);
        if paths.len() == 0 {
            self.state = GuardState::Idle;
            Err(NotStarted::EmptyTransfer)
        } else {
            self.state = GuardState::Active;
            Ok(DragSession { paths })
        }
    }

    /// Starts a drag session for a request, or turns it away at once.
    pub fn start(&mut self, probes: &Vec<PathProbe>) -> (result: Result<DragSession, NotStarted>)
        ensures
            final(self)@ == start_result(old(self)@, probes@).0,
            match result {
                Ok(session) => start_result(old(self)@, probes@).1 == Ok::<
                    Seq<Seq<u16>>,
                    NotStarted,
                >(session@),
                Err(reason) => start_result(old(self)@, probes@).1 == Err::<
                    Seq<Seq<u16>>,
                    NotStarted,
                >(reason),
            },
    {
        if probes.len() == 0 {
            return Err(NotStarted::EmptyRequest);
        }
        match self.try_acquire() {
            Some(grant) => self.activate(grant, probes),
            None => Err(NotStarted::AlreadyActive),
        }
    }

    /// Ends the session: the guard goes back to idle whatever the platform
    /// reports, and the report is mapped to the session's outcome.
    pub fn finish(&mut self, status: i32, effect: u32) -> (outcome: TransferOutcome)
        ensures
            final(self)@ == GuardState::Idle,
            outcome == outcome_of(status, effect),
    {
        self.state = GuardState::Ending;
        let outcome = map_outcome(status, effect);
        self.release();
        outcome
    }

    /// Puts the guard back to idle. This is what a caller does on every way
    /// out of a session, the ways taken by a failure included.
    pub fn release(&mut self)
        ensures
            final(self)@ == GuardState::Idle,
    {
        self.state = GuardState::Idle;
    }
}

} // verus!
