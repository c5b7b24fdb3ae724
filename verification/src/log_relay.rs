//! The decisions of a log session: from the session's state and the next
//! event to the next state and what to do.
//!
//! A log session follows the log of one container. Three sources feed it: the
//! two output streams of the log process, read line by line, and the inbound
//! side of the socket. Whoever runs the session hands each event to
//! [`LogRelay::step`] in the order in which it became ready, and carries out
//! the action that comes back.

use crate::frame::{log_frame_text, Channel, LogFrame};
use crate::session::{reaped, torn_down, CloseCause, Session};
use vstd::prelude::*;

verus! {

/// Something that happened to a log session.
#[derive(Clone, Debug, PartialEq, Eq)]
pub enum LogEvent {
    /// The process completed a line on one of its output streams.
    Line(LogFrame),
    /// An output stream of the process reached its end.
    OutputEnded(Channel),
    /// Reading an output stream of the process failed.
    OutputFailed(Channel),
    /// The peer sent a ping with this payload.
    Ping(Vec<u8>),
    /// The peer sent a close frame.
    CloseFrame,
    /// The peer sent a frame of any other kind.
    OtherFrame,
    /// The inbound side of the socket reached its end.
    SocketEnded,
    /// Receiving from the socket failed.
    SocketFailed,
    /// A line frame could not be sent.
    SendFailed,
    /// A pong could not be sent.
    PongFailed,
    /// The process has been terminated and waited for, or was found gone.
    Exited,
}

/// What the one who runs a log session has to do next.
#[derive(Clone, Debug, PartialEq, Eq)]
pub enum LogAction {
    /// Nothing: wait for the next event.
    Nothing,
    /// Send this text frame.
    SendText(String),
    /// Answer a ping: send a pong with this payload.
    SendPong(Vec<u8>),
    /// Request termination of the process, wait for its exit, then report
    /// `Exited`, whether or not terminating and waiting succeeded.
    Terminate,
}

pub enum LogEventView {
    Line { channel: Channel, content: Seq<char> },
    OutputEnded(Channel),
    OutputFailed(Channel),
    Ping(Seq<u8>),
    CloseFrame,
    OtherFrame,
    SocketEnded,
    SocketFailed,
    SendFailed,
    PongFailed,
    Exited,
}

pub enum LogActionView {
    Nothing,
    SendText(Seq<char>),
    SendPong(Seq<u8>),
    Terminate,
}

impl View for LogEvent {
    type V = LogEventView;

    open spec fn view(&self) -> LogEventView {
        match self {
            LogEvent::Line(frame) => LogEventView::Line {
                channel: frame.channel,
                content: frame.content@,
            },
            LogEvent::OutputEnded(channel) => LogEventView::OutputEnded(*channel),
            LogEvent::OutputFailed(channel) => LogEventView::OutputFailed(*channel),
            LogEvent::Ping(payload) => LogEventView::Ping(payload@),
            LogEvent::CloseFrame => LogEventView::CloseFrame,
            LogEvent::OtherFrame => LogEventView::OtherFrame,
            LogEvent::SocketEnded => LogEventView::SocketEnded,
            LogEvent::SocketFailed => LogEventView::SocketFailed,
            LogEvent::SendFailed => LogEventView::SendFailed,
            LogEvent::PongFailed => LogEventView::PongFailed,
            LogEvent::Exited => LogEventView::Exited,
        }
    }
}

impl View for LogAction {
    type V = LogActionView;

    open spec fn view(&self) -> LogActionView {
        match self {
            LogAction::Nothing => LogActionView::Nothing,
            LogAction::SendText(text) => LogActionView::SendText(text@),
            LogAction::SendPong(payload) => LogActionView::SendPong(payload@),
            LogAction::Terminate => LogActionView::Terminate,
        }
    }
}

/// The cause for which an event triggers teardown, if it does.
pub open spec fn log_close_cause(event: LogEventView) -> Option<CloseCause> {
    match event {
        LogEventView::OutputEnded(channel) => Some(CloseCause::OutputEnded(channel)),
        LogEventView::OutputFailed(channel) => Some(CloseCause::OutputFailed(channel)),
        LogEventView::CloseFrame => Some(CloseCause::PeerClosed),
        LogEventView::SocketEnded => Some(CloseCause::SocketEnded),
        LogEventView::SocketFailed => Some(CloseCause::SocketFailed),
        LogEventView::SendFailed => Some(CloseCause::SendFailed),
        _ => None,
    }
}

/// One step of a log session.
///
/// While the session is open, a line is forwarded as a text frame tagged with
/// its stream and a ping is answered with a pong of the same payload. The end
/// of either output stream, a read error on one, a close frame, the end of the
/// socket, a receive error and a failed send each trigger teardown. Other
/// frames and a failed pong are passed over. Once the session is not open,
/// nothing is forwarded and nothing is answered.
pub open spec fn log_step(session: Session, event: LogEventView) -> (Session, LogActionView) {
    match event {
        LogEventView::Exited => (reaped(session), LogActionView::Nothing),
        LogEventView::Line { channel, content } => if session == Session::Open {
            (session, LogActionView::SendText(log_frame_text(channel, content)))
        } else {
            (session, LogActionView::Nothing)
        },
        LogEventView::Ping(payload) => if session == Session::Open {
            (session, LogActionView::SendPong(payload))
        } else {
            (session, LogActionView::Nothing)
        },
        LogEventView::OtherFrame => (session, LogActionView::Nothing),
        LogEventView::PongFailed => (session, LogActionView::Nothing),
        _ => {
            let (next, terminate) = torn_down(session, log_close_cause(event)->0);
            (
                next,
                if terminate {
                    LogActionView::Terminate
                } else {
                    LogActionView::Nothing
                },
            )
        },
    }
}

/// The state a log session ends in, and the actions it asks for, when it is
/// handed `events` one after the other.
pub open spec fn log_run(session: Session, events: Seq<LogEventView>) -> (
    Session,
    Seq<LogActionView>,
)
    decreases events.len(),
{
    if events.len() == 0 {
        (session, Seq::empty())
    } else {
        let (next, action) = log_step(session, events[0]);
        let (end, actions) = log_run(next, events.drop_first());
        (end, seq![action] + actions)
    }
}

/// A log session.
#[derive(Clone, Debug, PartialEq, Eq)]
pub struct LogRelay {
    pub session: Session,
}

impl LogRelay {
    /// A session whose process has just been spawned.
    pub fn new() -> (relay: LogRelay)
        ensures
            relay.session == Session::Open,
    {
        LogRelay { session: Session::Open }
    }

    fn close(&mut self, cause: CloseCause) -> (action: LogAction)
        ensures
            final(self).session == torn_down(old(self).session, cause).0,
            action@ == (if torn_down(old(self).session, cause).1 {
                LogActionView::Terminate
            } else {
                LogActionView::Nothing
            }),
    {
        if self.session.teardown(cause) {
            LogAction::Terminate
        } else {
            LogAction::Nothing
        }
    }

    /// Takes the next event and says what to do.
    pub fn step(&mut self, event: LogEvent) -> (action: LogAction)
        ensures
            (final(self).session, action@) == log_step(old(self).session, event@),
    {
        match event {
            LogEvent::Exited => {
                self.session.reap();
                LogAction::Nothing
            },
            LogEvent::Line(frame) => {
                if self.session.is_open() {
                    LogAction::SendText(frame.payload())
                } else {
                    LogAction::Nothing
                }
            },
            LogEvent::Ping(payload) => {
                if self.session.is_open() {
                    LogAction::SendPong(payload)
                } else {
                    LogAction::Nothing
                }
            },
            LogEvent::OtherFrame => LogAction::Nothing,
            LogEvent::PongFailed => LogAction::Nothing,
            LogEvent::OutputEnded(channel) => self.close(CloseCause::OutputEnded(channel)),
            LogEvent::OutputFailed(channel) => self.close(CloseCause::OutputFailed(channel)),
            LogEvent::CloseFrame => self.close(CloseCause::PeerClosed),
            LogEvent::SocketEnded => self.close(CloseCause::SocketEnded),
            LogEvent::SocketFailed => self.close(CloseCause::SocketFailed),
            LogEvent::SendFailed => self.close(CloseCause::SendFailed),
        }
    }
}

/// A run asks for one action per event.
pub proof fn lemma_log_run_len(session: Session, events: Seq<LogEventView>)
    ensures
        log_run(session, events).1.len() == events.len(),
    decreases events.len(),
{
    if events.len() > 0 {
        lemma_log_run_len(log_step(session, events[0]).0, events.drop_first());
    }
}

/// The action at position `i` of a run is the step taken on event `i`, from
/// the state that the events before it led to.
pub proof fn lemma_log_run_at(session: Session, events: Seq<LogEventView>, i: int)
    requires
        0 <= i < events.len(),
    ensures
        log_run(session, events).1.len() == events.len(),
        log_run(session, events).1[i] == log_step(
            log_run(session, events.take(i)).0,
            events[i],
        ).1,
        log_run(session, events.take(i + 1)).0 == log_step(
            log_run(session, events.take(i)).0,
            events[i],
        ).0,
    decreases events.len(),
{
    lemma_log_run_len(session, events);
    let next = log_step(session, events[0]).0;
    let rest = events.drop_first();
    lemma_log_run_len(next, rest);
    if i == 0 {
        assert(events.take(0).len() == 0);
        assert(events.take(1).drop_first().len() == 0);
        assert(events.take(1)[0] == events[0]);
        assert(log_run(next, events.take(1).drop_first()).0 == next);
    } else {
        lemma_log_run_at(next, rest, i - 1);
        assert(events.take(i).drop_first() == rest.take(i - 1));
        assert(events.take(i + 1).drop_first() == rest.take(i));
        assert(events.take(i)[0] == events[0]);
        assert(events.take(i + 1)[0] == events[0]);
    }
}

/// Once a session is not open it never opens again and asks for nothing more;
/// it is closed from the first `Exited` on, and a closed session stays as it is.
pub proof fn lemma_log_run_after_teardown(session: Session, events: Seq<LogEventView>)
    requires
        session != Session::Open,
    ensures
        log_run(session, events).0 != Session::Open,
        forall|i: int|
            0 <= i < events.len() ==> #[trigger] log_run(session, events).1[i]
                == LogActionView::Nothing,
        events.contains(LogEventView::Exited) ==> log_run(session, events).0 is Closed,
        session is Closed ==> log_run(session, events).0 == session,
    decreases events.len(),
{
    lemma_log_run_len(session, events);
    if events.len() > 0 {
        let (next, action) = log_step(session, events[0]);
        let rest = events.drop_first();
        lemma_log_run_after_teardown(next, rest);
        lemma_log_run_len(next, rest);
        let actions = log_run(next, rest).1;
        assert forall|i: int| 0 <= i < events.len() implies #[trigger] log_run(session, events).1[i]
            == LogActionView::Nothing by {
            if i > 0 {
                assert((seq![action] + actions)[i] == actions[i - 1]);
            }
        }
        if events.contains(LogEventView::Exited) {
            let k = choose|k: int| 0 <= k < events.len() && events[k] == LogEventView::Exited;
            if k > 0 {
                assert(rest[k - 1] == events[k]);
            }
        }
    }
}

/// A close frame ends the session wherever it arrives. On an open session it
/// starts teardown and asks for the termination of the process. Whatever
/// events follow, and however many lines of output among them, none is
/// forwarded any more, the session does not open again, and it is closed as
/// soon as the process has been reaped.
pub proof fn lemma_close_frame_ends_session(session: Session, after: Seq<LogEventView>)
    ensures
        session == Session::Open ==> log_step(session, LogEventView::CloseFrame) == (
            Session::Closing(CloseCause::PeerClosed),
            LogActionView::Terminate,
        ),
        log_step(session, LogEventView::CloseFrame).0 != Session::Open,
        log_run(log_step(session, LogEventView::CloseFrame).0, after).0 != Session::Open,
        forall|i: int|
            0 <= i < after.len() ==> #[trigger] log_run(
                log_step(session, LogEventView::CloseFrame).0,
                after,
            ).1[i] == LogActionView::Nothing,
        after.contains(LogEventView::Exited) ==> log_run(
            log_step(session, LogEventView::CloseFrame).0,
            after,
        ).0 is Closed,
{
    lemma_log_run_after_teardown(log_step(session, LogEventView::CloseFrame).0, after);
}

/// Every text frame that a run sends is the frame of the line that the event
/// at the same position brought, so lines go out one frame each and in the
/// order in which they arrived.
pub proof fn lemma_log_frames_follow_lines(session: Session, events: Seq<LogEventView>, i: int)
    requires
        0 <= i < events.len(),
    ensures
        log_run(session, events).1.len() == events.len(),
        log_run(session, events).1[i] matches LogActionView::SendText(text) ==> (events[i] matches LogEventView::Line {
            channel,
            content,
        } && text == log_frame_text(channel, content)),
        log_run(session, events.take(i)).0 == Session::Open ==> (events[i] matches LogEventView::Line {
            channel,
            content,
        } ==> log_run(session, events).1[i] == LogActionView::SendText(
            log_frame_text(channel, content),
        )),
{
    lemma_log_run_at(session, events, i);
}

} // verus!
