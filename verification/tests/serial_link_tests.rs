use meshcore::proxy::NodeId;
use meshcore::serial_link::reset;
use meshcore::serial_link::reset_step;
use meshcore::serial_link::route_read;
use meshcore::serial_link::session_next;
use meshcore::serial_link::run;
use meshcore::serial_link::Role;
use meshcore::serial_link::DrainEvent;
use meshcore::serial_link::DrainOutcome;
use meshcore::serial_link::DrainStep;
use meshcore::serial_link::LinkError;
use meshcore::serial_link::LinkFrameHandler;
use meshcore::serial_link::ReadAction;
use meshcore::serial_link::ReadBytes;
use meshcore::serial_link::ReadDriver;
use meshcore::serial_link::ReadEvent;
use meshcore::serial_link::Routed;
use meshcore::serial_link::SessionEvent;
use meshcore::serial_link::SessionPhase;
use meshcore::serial_link::INCOMING_BYTE_TIMEOUT_US;

#[test]
fn idle_window_skips_exactly_one_byte() {
    let mut d = ReadDriver::new();
    assert_eq!(d.deadline(), None);
    // A read that produced a frame while bytes stay pending arms the
    // idle window.
    let a = d.on_event(ReadEvent::Bytes { count: 10 });
    assert_eq!(a, ReadAction::Parse { count: 10 });
    assert!(!d.after_parse(Some(10), true, true, 1_000));
    assert_eq!(d.deadline(), Some(1_000 + INCOMING_BYTE_TIMEOUT_US));
    // The window elapses: exactly one skip-and-reparse is attempted and
    // the timer is consumed.
    let a = d.on_event(ReadEvent::IdleTimeout);
    assert_eq!(a, ReadAction::SkipByteAndParse);
    assert_eq!(d.deadline(), None);
    // The skip parsed nothing: the window is not re-armed, so no second
    // skip can follow.
    assert!(!d.after_parse(None, true, false, 6_000_000));
    assert_eq!(d.deadline(), None);
    // Further frameless reads leave it disarmed too.
    let a = d.on_event(ReadEvent::Bytes { count: 3 });
    assert_eq!(a, ReadAction::Parse { count: 3 });
    assert!(!d.after_parse(Some(3), true, false, 7_000_000));
    assert_eq!(d.deadline(), None);
    // Only a parsed frame with bytes still pending re-arms the window.
    assert!(!d.after_parse(Some(4), true, true, 8_000_000));
    assert_eq!(d.deadline(), Some(8_000_000 + INCOMING_BYTE_TIMEOUT_US));
    // Once the deframer holds nothing, the timer clears entirely.
    assert!(!d.after_parse(Some(2), false, true, 9_000_000));
    assert_eq!(d.deadline(), None);
}

#[test]
fn closed_stream_exits_the_read_loop() {
    let mut d = ReadDriver::new();
    assert!(d.after_parse(Some(0), false, false, 10));
}

#[test]
fn drain_discards_and_acknowledges_until_timeout() {
    assert_eq!(reset_step(DrainEvent::Frame), DrainStep::WriteEmptyAndContinue);
    assert_eq!(reset_step(DrainEvent::Timeout), DrainStep::Done);
    assert_eq!(reset_step(DrainEvent::ReadError), DrainStep::Failed);

    let events = vec![DrainEvent::Frame, DrainEvent::Frame, DrainEvent::Timeout];
    assert_eq!(reset(&events), (DrainOutcome::Drained, 2));

    // A silent peer: the first bounded read times out and the drain is
    // over at once.
    let events = vec![DrainEvent::Timeout];
    assert_eq!(reset(&events), (DrainOutcome::Drained, 0));

    let events = vec![DrainEvent::Frame, DrainEvent::ReadError];
    assert_eq!(reset(&events), (DrainOutcome::Failed, 1));

    let events = vec![DrainEvent::Frame];
    assert_eq!(reset(&events), (DrainOutcome::StillDraining, 1));
}

#[test]
fn session_cycles_main_drain_settle_forever() {
    assert_eq!(session_next(SessionPhase::Main, SessionEvent::MainExited), Ok(SessionPhase::Drain));
    assert_eq!(
        session_next(SessionPhase::Drain, SessionEvent::DrainCompleted),
        Ok(SessionPhase::Settle)
    );
    assert_eq!(
        session_next(SessionPhase::Settle, SessionEvent::SettleElapsed),
        Ok(SessionPhase::Main)
    );
    assert_eq!(
        session_next(SessionPhase::Drain, SessionEvent::DrainFailed),
        Err(LinkError::ReadFailed)
    );
}

#[test]
fn link_runs_sessions_until_a_drain_fails() {
    // Two clean sessions: each drain times out after absorbing a frame.
    let sessions = vec![
        vec![DrainEvent::Frame, DrainEvent::Timeout],
        vec![DrainEvent::Timeout],
    ];
    assert_eq!(run(Role::Client, &sessions), Ok(()));
    // A read failure in the second session's drain ends the link.
    let sessions = vec![
        vec![DrainEvent::Timeout],
        vec![DrainEvent::Frame, DrainEvent::ReadError],
        vec![DrainEvent::Timeout],
    ];
    assert_eq!(run(Role::Server, &sessions), Err(LinkError::ReadFailed));
}

#[test]
fn empty_frame_signals_reset() {
    let mut h = LinkFrameHandler::new();
    assert_eq!(h.handle_frame(0, None), Err(LinkError::ResetReceived));
}

#[test]
fn peer_id_is_announced_exactly_once() {
    let mut h = LinkFrameHandler::new();
    assert_eq!(h.handle_frame(5, None), Ok(None));
    assert_eq!(h.handle_frame(5, Some(NodeId(11))), Ok(Some(NodeId(11))));
    assert_eq!(h.handle_frame(5, Some(NodeId(11))), Ok(None));
    assert_eq!(h.handle_frame(5, None), Ok(None));
}

#[test]
fn unframed_bytes_go_to_the_side_channel() {
    assert_eq!(
        route_read(ReadBytes::Framed(vec![1, 2, 3])),
        Routed::ToLink(vec![1, 2, 3])
    );
    assert_eq!(
        route_read(ReadBytes::Unframed(vec![9])),
        Routed::ToSkipped(vec![9])
    );
}
