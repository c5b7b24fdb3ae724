use containers::frame::{Channel, LogFrame};
use containers::log_relay::{LogAction, LogEvent, LogRelay};
use containers::session::{CloseCause, Session, SessionEnd};

fn line(channel: Channel, content: &str) -> LogEvent {
    LogEvent::Line(LogFrame { channel, content: content.to_string() })
}

#[test]
fn new_session_is_open() {
    let relay = LogRelay::new();
    assert_eq!(relay.session, Session::Open);
    assert!(relay.session.is_open());
    assert!(!relay.session.is_closed());
    assert_eq!(relay.session.end(), None);
}

#[test]
fn lines_are_forwarded_tagged_and_in_order() {
    let mut relay = LogRelay::new();
    assert_eq!(
        relay.step(line(Channel::Stdout, "one")),
        LogAction::SendText(r#"{"channel":"stdout","content":"one"}"#.to_string())
    );
    assert_eq!(
        relay.step(line(Channel::Stderr, "two")),
        LogAction::SendText(r#"{"channel":"stderr","content":"two"}"#.to_string())
    );
    assert_eq!(
        relay.step(line(Channel::Stdout, "three")),
        LogAction::SendText(r#"{"channel":"stdout","content":"three"}"#.to_string())
    );
    assert_eq!(relay.session, Session::Open);
}

#[test]
fn ping_is_answered_with_pong() {
    let mut relay = LogRelay::new();
    assert_eq!(relay.step(LogEvent::Ping(vec![1, 2, 3])), LogAction::SendPong(vec![1, 2, 3]));
    assert_eq!(relay.step(LogEvent::PongFailed), LogAction::Nothing);
    assert_eq!(relay.session, Session::Open);
}

#[test]
fn other_frames_are_ignored() {
    let mut relay = LogRelay::new();
    assert_eq!(relay.step(LogEvent::OtherFrame), LogAction::Nothing);
    assert_eq!(relay.session, Session::Open);
}

#[test]
fn close_frame_terminates_and_session_closes_after_exit() {
    let mut relay = LogRelay::new();
    relay.step(line(Channel::Stdout, "before"));
    assert_eq!(relay.step(LogEvent::CloseFrame), LogAction::Terminate);
    assert_eq!(relay.session, Session::Closing(CloseCause::PeerClosed));
    for n in 0..1000 {
        assert_eq!(relay.step(line(Channel::Stdout, &format!("buffered {n}"))), LogAction::Nothing);
    }
    assert_eq!(relay.step(LogEvent::Ping(vec![9])), LogAction::Nothing);
    assert_eq!(relay.step(LogEvent::Exited), LogAction::Nothing);
    assert_eq!(relay.session, Session::Closed(CloseCause::PeerClosed));
    assert_eq!(relay.session.end(), Some(SessionEnd::Clean));
}

#[test]
fn every_trigger_starts_teardown_once() {
    let triggers = [
        (LogEvent::OutputEnded(Channel::Stdout), CloseCause::OutputEnded(Channel::Stdout), SessionEnd::Clean),
        (LogEvent::OutputEnded(Channel::Stderr), CloseCause::OutputEnded(Channel::Stderr), SessionEnd::Clean),
        (LogEvent::OutputFailed(Channel::Stdout), CloseCause::OutputFailed(Channel::Stdout), SessionEnd::Error),
        (LogEvent::OutputFailed(Channel::Stderr), CloseCause::OutputFailed(Channel::Stderr), SessionEnd::Error),
        (LogEvent::CloseFrame, CloseCause::PeerClosed, SessionEnd::Clean),
        (LogEvent::SocketEnded, CloseCause::SocketEnded, SessionEnd::Clean),
        (LogEvent::SocketFailed, CloseCause::SocketFailed, SessionEnd::Error),
        (LogEvent::SendFailed, CloseCause::SendFailed, SessionEnd::Error),
    ];
    for (event, cause, end) in triggers {
        let mut relay = LogRelay::new();
        assert_eq!(relay.step(event.clone()), LogAction::Terminate);
        assert_eq!(relay.session, Session::Closing(cause));
        assert_eq!(relay.session.end(), None);
        assert_eq!(relay.step(event), LogAction::Nothing);
        assert_eq!(relay.step(LogEvent::SocketFailed), LogAction::Nothing);
        assert_eq!(relay.session, Session::Closing(cause));
        assert_eq!(relay.step(LogEvent::Exited), LogAction::Nothing);
        assert_eq!(relay.session, Session::Closed(cause));
        assert_eq!(relay.session.end(), Some(end));
    }
}

#[test]
fn teardown_twice_is_a_no_op() {
    let mut session = Session::Open;
    assert!(session.teardown(CloseCause::SendFailed));
    assert_eq!(session, Session::Closing(CloseCause::SendFailed));
    assert!(!session.teardown(CloseCause::PeerClosed));
    assert_eq!(session, Session::Closing(CloseCause::SendFailed));
    session.reap();
    assert_eq!(session, Session::Closed(CloseCause::SendFailed));
    assert!(!session.teardown(CloseCause::PeerClosed));
    session.reap();
    assert_eq!(session, Session::Closed(CloseCause::SendFailed));
    assert!(session.is_closed());
}

#[test]
fn process_found_gone_closes_an_open_session() {
    let mut relay = LogRelay::new();
    assert_eq!(relay.step(LogEvent::Exited), LogAction::Nothing);
    assert_eq!(relay.session, Session::Closed(CloseCause::ProcessExited));
    assert_eq!(relay.session.end(), Some(SessionEnd::Clean));
    assert_eq!(relay.step(line(Channel::Stdout, "late")), LogAction::Nothing);
    assert_eq!(relay.step(LogEvent::CloseFrame), LogAction::Nothing);
    assert_eq!(relay.session, Session::Closed(CloseCause::ProcessExited));
}
