use mpv_handler::coordinator::Coordinator;
use mpv_handler::coordinator::CoordAction;
use mpv_handler::coordinator::CoordEvent;
use mpv_handler::coordinator::CoordState;
use mpv_handler::error::ApiError;
use mpv_handler::error::DecodeError;
use mpv_handler::error::Error;
use mpv_handler::error::PollError;
use mpv_handler::error::SpawnError;
use mpv_handler::session::PlayStatus;

#[test]
fn a_session_runs_from_decode_to_done() {
    let mut c = Coordinator::new();
    assert_eq!(c.state, CoordState::Decoding);
    assert_eq!(c.step(CoordEvent::Decoded(Ok(()))), CoordAction::Resolve);
    assert_eq!(c.state, CoordState::Resolving);
    assert_eq!(
        c.step(CoordEvent::Resolved(Ok(100))),
        CoordAction::SpawnPlayer
    );
    assert_eq!(c.state, CoordState::Starting);
    assert_eq!(c.ticks, 100);
    assert_eq!(
        c.step(CoordEvent::Spawned(Ok(()))),
        CoordAction::Report(PlayStatus::Play, 100)
    );
    assert_eq!(c.state, CoordState::Playing);
    assert_eq!(
        c.step(CoordEvent::PollOk(200)),
        CoordAction::Report(PlayStatus::Progress, 200)
    );
    assert_eq!(c.ticks, 200);
    assert_eq!(c.step(CoordEvent::PlayerGone), CoordAction::Report(PlayStatus::Stop, 200));
    assert_eq!(c.state, CoordState::Stopping);
    assert_eq!(
        c.step(CoordEvent::ReportOutcome(Ok(()))),
        CoordAction::ExitSuccess
    );
    assert_eq!(c.state, CoordState::Done);
}

#[test]
fn report_failures_do_not_disturb_playback() {
    let mut c = Coordinator::new();
    c.step(CoordEvent::Decoded(Ok(())));
    c.step(CoordEvent::Resolved(Ok(100)));
    c.step(CoordEvent::Spawned(Ok(())));
    assert_eq!(c.state, CoordState::Playing);
    // the play report fails: the loop continues uninterrupted
    assert_eq!(
        c.step(CoordEvent::ReportOutcome(Err(ApiError::Transport))),
        CoordAction::Wait
    );
    assert_eq!(c.state, CoordState::Playing);
    assert_eq!(c.ticks, 100);
    // a progress report fails with a server error: still uninterrupted
    c.step(CoordEvent::PollOk(300));
    assert_eq!(
        c.step(CoordEvent::ReportOutcome(Err(ApiError::BadStatus(500)))),
        CoordAction::Wait
    );
    assert_eq!(c.state, CoordState::Playing);
    assert_eq!(c.ticks, 300);
}

#[test]
fn poll_failures_keep_the_last_known_position() {
    let mut c = Coordinator::new();
    c.step(CoordEvent::Decoded(Ok(())));
    c.step(CoordEvent::Resolved(Ok(500)));
    c.step(CoordEvent::Spawned(Ok(())));
    assert_eq!(c.step(CoordEvent::PollFailed(PollError::ChannelUnavailable)), CoordAction::Wait);
    assert_eq!(c.state, CoordState::Playing);
    assert_eq!(c.ticks, 500);
    // with no successful poll, the stop report carries the resume position
    assert_eq!(c.step(CoordEvent::PlayerGone), CoordAction::Report(PlayStatus::Stop, 500));
}

#[test]
fn fatal_failures_abort() {
    let mut c = Coordinator::new();
    assert_eq!(c.step(CoordEvent::Decoded(Err(Error::Decode(DecodeError::InvalidScheme)))), CoordAction::ExitFailure);
    assert_eq!(c.state, CoordState::Aborted);

    let mut c = Coordinator::new();
    c.step(CoordEvent::Decoded(Ok(())));
    assert_eq!(c.step(CoordEvent::Resolved(Err(ApiError::Transport))), CoordAction::ExitFailure);
    assert_eq!(c.state, CoordState::Aborted);

    let mut c = Coordinator::new();
    c.step(CoordEvent::Decoded(Ok(())));
    c.step(CoordEvent::Resolved(Ok(0)));
    assert_eq!(c.step(CoordEvent::Spawned(Err(SpawnError::LaunchFailed))), CoordAction::ExitFailure);
    assert_eq!(c.state, CoordState::Aborted);
}
