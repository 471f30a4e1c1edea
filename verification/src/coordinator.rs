//! The session coordinator: a state machine that sequences decode, identity
//! resolution, player start, the polling loop and the stop report. Each
//! outside outcome arrives as an event; the step function answers with the
//! next action. Failures that would stop the user from watching are fatal;
//! failures that only affect telemetry never disturb the loop.
use vstd::prelude::*;

use crate::error::ApiError;
use crate::error::Error;
use crate::error::PollError;
use crate::error::SpawnError;
use crate::session::PlayStatus;

verus! {

/// The states of one playback session.
#[derive(Clone, Copy, Debug, PartialEq, Eq, Structural)]
pub enum CoordState {
    /// Decoding the handler URL.
    Decoding,
    /// Resolving identity, resume position and title.
    Resolving,
    /// Spawning the player.
    Starting,
    /// The polling loop: report progress while the player runs.
    Playing,
    /// The player is gone; the stop report is under way.
    Stopping,
    /// Normal completion.
    Done,
    /// Unrecoverable failure; the process exits non-zero.
    Aborted,
}

/// What happened outside: each event answers the previous action.
#[derive(Clone, Copy, Debug, PartialEq, Eq)]
pub enum CoordEvent {
    /// The handler URL decoded and supplied session parameters, or failed.
    Decoded(Result<(), Error>),
    /// Identity and resume position resolved to the resume position in
    /// ticks, or failed fatally. A title failure is tolerated and never
    /// reported here.
    Resolved(Result<u64, ApiError>),
    /// The player spawned, or could not be started.
    Spawned(Result<(), SpawnError>),
    /// A position poll succeeded with the position in ticks.
    PollOk(u64),
    /// A position poll failed; the last known position stands.
    PollFailed(PollError),
    /// The player process is no longer running.
    PlayerGone,
    /// A status report finished, well or badly.
    ReportOutcome(Result<(), ApiError>),
}

/// What the coordinator asks for next.
#[derive(Clone, Copy, Debug, PartialEq, Eq, Structural)]
pub enum CoordAction {
    /// Resolve identity, resume position and title.
    Resolve,
    /// Spawn the player.
    SpawnPlayer,
    /// Report the phase with the position in ticks, best effort.
    Report(PlayStatus, u64),
    /// Nothing to send: keep watching the player.
    Wait,
    /// The session completed; exit cleanly.
    ExitSuccess,
    /// The session failed; exit with an error.
    ExitFailure,
}

/// One session's coordinator: its state, the last known position in ticks
/// (the resume position until a poll succeeds), and whether any poll ever
/// succeeded.
pub struct Coordinator {
    pub state: CoordState,
    pub ticks: u64,
    pub polled: bool,
}

/// The transition relation of the coordinator, as a function from the state
/// before and the event to the state after and the action.
pub open spec fn step_spec(pre: Coordinator, event: CoordEvent) -> (Coordinator, CoordAction) {
    match (pre.state, event) {
        (CoordState::Decoding, CoordEvent::Decoded(Ok(()))) => (
            Coordinator { state: CoordState::Resolving, ..pre },
            CoordAction::Resolve,
        ),
        (CoordState::Decoding, CoordEvent::Decoded(Err(_))) => (
            Coordinator { state: CoordState::Aborted, ..pre },
            CoordAction::ExitFailure,
        ),
        (CoordState::Resolving, CoordEvent::Resolved(Ok(t))) => (
            Coordinator { state: CoordState::Starting, ticks: t, ..pre },
            CoordAction::SpawnPlayer,
        ),
        (CoordState::Resolving, CoordEvent::Resolved(Err(_))) => (
            Coordinator { state: CoordState::Aborted, ..pre },
            CoordAction::ExitFailure,
        ),
        (CoordState::Starting, CoordEvent::Spawned(Ok(()))) => (
            Coordinator { state: CoordState::Playing, ..pre },
            CoordAction::Report(PlayStatus::Play, pre.ticks),
        ),
        (CoordState::Starting, CoordEvent::Spawned(Err(_))) => (
            Coordinator { state: CoordState::Aborted, ..pre },
            CoordAction::ExitFailure,
        ),
        (CoordState::Playing, CoordEvent::PollOk(t)) => (
            Coordinator { state: CoordState::Playing, ticks: t, polled: true },
            CoordAction::Report(PlayStatus::Progress, t),
        ),
        (CoordState::Playing, CoordEvent::PollFailed(_)) => (pre, CoordAction::Wait),
        (CoordState::Playing, CoordEvent::ReportOutcome(_)) => (pre, CoordAction::Wait),
        (CoordState::Playing, CoordEvent::PlayerGone) => (
            Coordinator { state: CoordState::Stopping, ..pre },
            CoordAction::Report(PlayStatus::Stop, pre.ticks),
        ),
        (CoordState::Stopping, CoordEvent::ReportOutcome(_)) => (
            Coordinator { state: CoordState::Done, ..pre },
            CoordAction::ExitSuccess,
        ),
        (CoordState::Done, _) => (pre, CoordAction::ExitSuccess),
        (CoordState::Aborted, _) => (pre, CoordAction::ExitFailure),
        _ => (pre, CoordAction::Wait),
    }
}

impl Coordinator {
    /// A fresh coordinator, about to decode.
    pub fn new() -> (c: Coordinator)
        ensures
            c.state == CoordState::Decoding,
            c.ticks == 0,
            !c.polled,
    {
        Coordinator { state: CoordState::Decoding, ticks: 0, polled: false }
    }

    /// Take one step: consume the event, move to the next state, answer
    /// with the next action.
    pub fn step(&mut self, event: CoordEvent) -> (a: CoordAction)
        ensures
            *final(self) == step_spec(*old(self), event).0,
            a == step_spec(*old(self), event).1,
    {
        match (self.state, event) {
            (CoordState::Decoding, CoordEvent::Decoded(Ok(()))) => {
                self.state = CoordState::Resolving;
                CoordAction::Resolve
            },
            (CoordState::Decoding, CoordEvent::Decoded(Err(_))) => {
                self.state = CoordState::Aborted;
                CoordAction::ExitFailure
            },
            (CoordState::Resolving, CoordEvent::Resolved(Ok(t))) => {
                self.state = CoordState::Starting;
                self.ticks = t;
                CoordAction::SpawnPlayer
            },
            (CoordState::Resolving, CoordEvent::Resolved(Err(_))) => {
                self.state = CoordState::Aborted;
                CoordAction::ExitFailure
            },
            (CoordState::Starting, CoordEvent::Spawned(Ok(()))) => {
                self.state = CoordState::Playing;
                CoordAction::Report(PlayStatus::Play, self.ticks)
            },
            (CoordState::Starting, CoordEvent::Spawned(Err(_))) => {
                self.state = CoordState::Aborted;
                CoordAction::ExitFailure
            },
            (CoordState::Playing, CoordEvent::PollOk(t)) => {
                self.ticks = t;
                self.polled = true;
                CoordAction::Report(PlayStatus::Progress, t)
            },
            (CoordState::Playing, CoordEvent::PollFailed(_)) => CoordAction::Wait,
            (CoordState::Playing, CoordEvent::ReportOutcome(_)) => CoordAction::Wait,
            (CoordState::Playing, CoordEvent::PlayerGone) => {
                self.state = CoordState::Stopping;
                CoordAction::Report(PlayStatus::Stop, self.ticks)
            },
            (CoordState::Stopping, CoordEvent::ReportOutcome(_)) => {
                self.state = CoordState::Done;
                CoordAction::ExitSuccess
            },
            (CoordState::Done, _) => CoordAction::ExitSuccess,
            (CoordState::Aborted, _) => CoordAction::ExitFailure,
            _ => CoordAction::Wait,
        }
    }
}

/// Report outcomes never disturb playback: in the Playing state, a status
/// report's outcome — success or any failure — leaves the coordinator
/// exactly as it was, and the polling loop goes on.
pub proof fn lemma_report_outcome_keeps_playing(pre: Coordinator, outcome: Result<(), ApiError>)
    requires
        pre.state == CoordState::Playing,
    ensures
        step_spec(pre, CoordEvent::ReportOutcome(outcome)).0 == pre,
        step_spec(pre, CoordEvent::ReportOutcome(outcome)).1 == CoordAction::Wait,
{
}

/// The position a coordinator holds changes only two ways: it is reset to
/// the server-reported resume position when resolution succeeds, and it
/// follows successful polls afterwards. No other event moves it.
pub proof fn lemma_ticks_only_from_resolve_and_polls(pre: Coordinator, event: CoordEvent)
    ensures
        step_spec(pre, event).0.ticks == match event {
            CoordEvent::Resolved(Ok(t)) => if pre.state == CoordState::Resolving {
                t
            } else {
                pre.ticks
            },
            CoordEvent::PollOk(t) => if pre.state == CoordState::Playing {
                t
            } else {
                pre.ticks
            },
            _ => pre.ticks,
        },
{
}

/// A stop is reported with the last known position: the position carried by
/// the stop report is exactly the coordinator's position — the resume
/// position when no poll ever succeeded, the last successful poll
/// otherwise.
pub proof fn lemma_stop_reports_last_known(pre: Coordinator)
    requires
        pre.state == CoordState::Playing,
    ensures
        step_spec(pre, CoordEvent::PlayerGone).1 == CoordAction::Report(
            PlayStatus::Stop,
            pre.ticks,
        ),
        step_spec(pre, CoordEvent::PlayerGone).0.state == CoordState::Stopping,
{
}

} // verus!
