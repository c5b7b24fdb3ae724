//! The decisions of a shell session: from the session's state and the next
//! event to the next state and what to do.
//!
//! A shell session pipes raw bytes between the socket and a shell that runs
//! inside a container. Inbound frames go to the input of the process as they
//! are; each chunk read from one of its two output streams goes out as one
//! binary frame. All outbound frames are asked for by [`ShellRelay::step`],
//! one action per event, so whoever carries the actions out one at a time
//! never has two writers on the socket.

use crate::frame::Channel;
use crate::session::{reaped, torn_down, CloseCause, Session};
use vstd::prelude::*;
use vstd::string::StrSliceExecFns;
use vstd::string::StringSliceAdditionalSpecFns;
use vstd::utf8::encode_utf8;

verus! {

/// Something that happened to a shell session.
#[derive(Clone, Debug, PartialEq, Eq)]
pub enum ShellEvent {
    /// A chunk of bytes was read from an output stream of the process.
    Chunk { channel: Channel, bytes: Vec<u8> },
    /// An output stream of the process reached its end.
    OutputEnded(Channel),
    /// Reading an output stream of the process failed.
    OutputFailed(Channel),
    /// The frame for a chunk of this stream could not be sent.
    ChunkSendFailed(Channel),
    /// The peer sent a binary frame.
    Binary(Vec<u8>),
    /// The peer sent a text frame.
    Text(String),
    /// The peer sent a ping with this payload.
    Ping(Vec<u8>),
    /// The peer sent a pong.
    Pong,
    /// The peer sent a close frame.
    CloseFrame,
    /// The inbound side of the socket reached its end.
    SocketEnded,
    /// Receiving from the socket failed.
    SocketFailed,
    /// Writing to the input of the process failed.
    InputFailed,
    /// A pong could not be sent.
    PongFailed,
    /// The process has been terminated and waited for, or was found gone.
    Exited,
}

/// What the one who runs a shell session has to do next.
#[derive(Clone, Debug, PartialEq, Eq)]
pub enum ShellAction {
    /// Nothing: wait for the next event.
    Nothing,
    /// Send these bytes as one binary frame.
    SendBinary(Vec<u8>),
    /// Answer a ping: send a pong with this payload.
    SendPong(Vec<u8>),
    /// Write all of these bytes to the input of the process.
    WriteInput(Vec<u8>),
    /// Stop reading the output streams, request termination of the process,
    /// wait for its exit, then report `Exited`, whether or not terminating and
    /// waiting succeeded.
    Terminate,
}

pub enum ShellEventView {
    Chunk { channel: Channel, bytes: Seq<u8> },
    OutputEnded(Channel),
    OutputFailed(Channel),
    ChunkSendFailed(Channel),
    /// A binary or a text frame, as the bytes it carries.
    Input(Seq<u8>),
    Ping(Seq<u8>),
    Pong,
    CloseFrame,
    SocketEnded,
    SocketFailed,
    InputFailed,
    PongFailed,
    Exited,
}

pub enum ShellActionView {
    Nothing,
    SendBinary(Seq<u8>),
    SendPong(Seq<u8>),
    WriteInput(Seq<u8>),
    Terminate,
}

impl View for ShellEvent {
    type V = ShellEventView;

    open spec fn view(&self) -> ShellEventView {
        match self {
            ShellEvent::Chunk { channel, bytes } => ShellEventView::Chunk {
                channel: *channel,
                bytes: bytes@,
            },
            ShellEvent::OutputEnded(channel) => ShellEventView::OutputEnded(*channel),
            ShellEvent::OutputFailed(channel) => ShellEventView::OutputFailed(*channel),
            ShellEvent::ChunkSendFailed(channel) => ShellEventView::ChunkSendFailed(*channel),
            ShellEvent::Binary(bytes) => ShellEventView::Input(bytes@),
            ShellEvent::Text(text) => ShellEventView::Input(encode_utf8(text@)),
            ShellEvent::Ping(payload) => ShellEventView::Ping(payload@),
            ShellEvent::Pong => ShellEventView::Pong,
            ShellEvent::CloseFrame => ShellEventView::CloseFrame,
            ShellEvent::SocketEnded => ShellEventView::SocketEnded,
            ShellEvent::SocketFailed => ShellEventView::SocketFailed,
            ShellEvent::InputFailed => ShellEventView::InputFailed,
            ShellEvent::PongFailed => ShellEventView::PongFailed,
            ShellEvent::Exited => ShellEventView::Exited,
        }
    }
}

impl View for ShellAction {
    type V = ShellActionView;

    open spec fn view(&self) -> ShellActionView {
        match self {
            ShellAction::Nothing => ShellActionView::Nothing,
            ShellAction::SendBinary(bytes) => ShellActionView::SendBinary(bytes@),
            ShellAction::SendPong(payload) => ShellActionView::SendPong(payload@),
            ShellAction::WriteInput(bytes) => ShellActionView::WriteInput(bytes@),
            ShellAction::Terminate => ShellActionView::Terminate,
        }
    }
}

/// A shell session: the state of the session and, for each output stream of
/// the process, whether its chunks are still forwarded.
#[derive(Clone, Copy, Debug, PartialEq, Eq, Structural)]
pub struct ShellRelay {
    pub session: Session,
    pub stdout_forwarding: bool,
    pub stderr_forwarding: bool,
}

pub open spec fn forwarding(relay: ShellRelay, channel: Channel) -> bool {
    match channel {
        Channel::Stdout => relay.stdout_forwarding,
        Channel::Stderr => relay.stderr_forwarding,
    }
}

/// `relay` with the forwarding of one stream stopped.
pub open spec fn stopped(relay: ShellRelay, channel: Channel) -> ShellRelay {
    match channel {
        Channel::Stdout => ShellRelay { stdout_forwarding: false, ..relay },
        Channel::Stderr => ShellRelay { stderr_forwarding: false, ..relay },
    }
}

/// The cause for which an event triggers teardown, if it does.
pub open spec fn shell_close_cause(event: ShellEventView) -> Option<CloseCause> {
    match event {
        ShellEventView::CloseFrame => Some(CloseCause::PeerClosed),
        ShellEventView::SocketEnded => Some(CloseCause::SocketEnded),
        ShellEventView::SocketFailed => Some(CloseCause::SocketFailed),
        ShellEventView::InputFailed => Some(CloseCause::InputFailed),
        _ => None,
    }
}

/// One step of a shell session.
///
/// While the session is open: the bytes of an inbound binary or text frame
/// are written to the input of the process; a chunk of a stream that is still
/// forwarded goes out as one binary frame; a ping is answered with a pong of
/// the same payload. A stream is no longer forwarded once it ended, could not
/// be read, or a frame for it could not be sent; the session goes on. A close
/// frame, the end of the socket, a receive error and a failed write to the
/// process each trigger teardown. Once the session is not open, nothing is
/// written, forwarded or answered.
pub open spec fn shell_step(relay: ShellRelay, event: ShellEventView) -> (
    ShellRelay,
    ShellActionView,
) {
    let open = relay.session == Session::Open;
    match event {
        ShellEventView::Exited => (
            ShellRelay { session: reaped(relay.session), ..relay },
            ShellActionView::Nothing,
        ),
        ShellEventView::Chunk { channel, bytes } => if open && forwarding(relay, channel) {
            (relay, ShellActionView::SendBinary(bytes))
        } else {
            (relay, ShellActionView::Nothing)
        },
        ShellEventView::OutputEnded(channel) => (stopped(relay, channel), ShellActionView::Nothing),
        ShellEventView::OutputFailed(channel) => (
            stopped(relay, channel),
            ShellActionView::Nothing,
        ),
        ShellEventView::ChunkSendFailed(channel) => (
            stopped(relay, channel),
            ShellActionView::Nothing,
        ),
        ShellEventView::Input(bytes) => if open {
            (relay, ShellActionView::WriteInput(bytes))
        } else {
            (relay, ShellActionView::Nothing)
        },
        ShellEventView::Ping(payload) => if open {
            (relay, ShellActionView::SendPong(payload))
        } else {
            (relay, ShellActionView::Nothing)
        },
        ShellEventView::Pong => (relay, ShellActionView::Nothing),
        ShellEventView::PongFailed => (relay, ShellActionView::Nothing),
        _ => {
            let (next, terminate) = torn_down(relay.session, shell_close_cause(event)->0);
            (
                ShellRelay { session: next, ..relay },
                if terminate {
                    ShellActionView::Terminate
                } else {
                    ShellActionView::Nothing
                },
            )
        },
    }
}

/// The state a shell session ends in, and the actions it asks for, when it is
/// handed `events` one after the other.
pub open spec fn shell_run(relay: ShellRelay, events: Seq<ShellEventView>) -> (
    ShellRelay,
    Seq<ShellActionView>,
)
    decreases events.len(),
{
    if events.len() == 0 {
        (relay, Seq::empty())
    } else {
        let (next, action) = shell_step(relay, events[0]);
        let (end, actions) = shell_run(next, events.drop_first());
        (end, seq![action] + actions)
    }
}

/// The bytes that inbound frames carried, in the order of their arrival.
pub open spec fn received_input(events: Seq<ShellEventView>) -> Seq<u8>
    decreases events.len(),
{
    if events.len() == 0 {
        Seq::empty()
    } else {
        (match events[0] {
            ShellEventView::Input(bytes) => bytes,
            _ => Seq::empty(),
        }) + received_input(events.drop_first())
    }
}

/// The bytes that a sequence of actions writes to the input of the process.
pub open spec fn written_input(actions: Seq<ShellActionView>) -> Seq<u8>
    decreases actions.len(),
{
    if actions.len() == 0 {
        Seq::empty()
    } else {
        (match actions[0] {
            ShellActionView::WriteInput(bytes) => bytes,
            _ => Seq::empty(),
        }) + written_input(actions.drop_first())
    }
}

impl ShellRelay {
    /// A session whose process has just been spawned: both streams are forwarded.
    pub fn new() -> (relay: ShellRelay)
        ensures
            relay == (ShellRelay {
                session: Session::Open,
                stdout_forwarding: true,
                stderr_forwarding: true,
            }),
    {
        ShellRelay { session: Session::Open, stdout_forwarding: true, stderr_forwarding: true }
    }

    fn forwards(&self, channel: Channel) -> (r: bool)
        ensures
            r == forwarding(*self, channel),
    {
        match channel {
            Channel::Stdout => self.stdout_forwarding,
            Channel::Stderr => self.stderr_forwarding,
        }
    }

    fn stop(&mut self, channel: Channel)
        ensures
            *final(self) == stopped(*old(self), channel),
    {
        match channel {
            Channel::Stdout => {
                self.stdout_forwarding = false;
            },
            Channel::Stderr => {
                self.stderr_forwarding = false;
            },
        }
    }

    fn close(&mut self, cause: CloseCause) -> (action: ShellAction)
        ensures
            *final(self) == (ShellRelay {
                session: torn_down(old(self).session, cause).0,
                ..*old(self)
            }),
            action@ == (if torn_down(old(self).session, cause).1 {
                ShellActionView::Terminate
            } else {
                ShellActionView::Nothing
            }),
    {
        if self.session.teardown(cause) {
            ShellAction::Terminate
        } else {
            ShellAction::Nothing
        }
    }

    /// Takes the next event and says what to do.
    pub fn step(&mut self, event: ShellEvent) -> (action: ShellAction)
        ensures
            (*final(self), action@) == shell_step(*old(self), event@),
    {
        match event {
            ShellEvent::Exited => {
                self.session.reap();
                ShellAction::Nothing
            },
            ShellEvent::Chunk { channel, bytes } => {
                if self.session.is_open() && self.forwards(channel) {
                    ShellAction::SendBinary(bytes)
                } else {
                    ShellAction::Nothing
                }
            },
            ShellEvent::OutputEnded(channel) => {
                self.stop(channel);
                ShellAction::Nothing
            },
            ShellEvent::OutputFailed(channel) => {
                self.stop(channel);
                ShellAction::Nothing
            },
            ShellEvent::ChunkSendFailed(channel) => {
                self.stop(channel);
                ShellAction::Nothing
            },
            ShellEvent::Binary(bytes) => {
                if self.session.is_open() {
                    ShellAction::WriteInput(bytes)
                } else {
                    ShellAction::Nothing
                }
            },
            ShellEvent::Text(text) => {
                if self.session.is_open() {
                    ShellAction::WriteInput(text.as_str().as_bytes_vec())
                } else {
                    ShellAction::Nothing
                }
            },
            ShellEvent::Ping(payload) => {
                if self.session.is_open() {
                    ShellAction::SendPong(payload)
                } else {
                    ShellAction::Nothing
                }
            },
            ShellEvent::Pong => ShellAction::Nothing,
            ShellEvent::PongFailed => ShellAction::Nothing,
            ShellEvent::CloseFrame => self.close(CloseCause::PeerClosed),
            ShellEvent::SocketEnded => self.close(CloseCause::SocketEnded),
            ShellEvent::SocketFailed => self.close(CloseCause::SocketFailed),
            ShellEvent::InputFailed => self.close(CloseCause::InputFailed),
        }
    }
}

/// A run asks for one action per event.
pub proof fn lemma_shell_run_len(relay: ShellRelay, events: Seq<ShellEventView>)
    ensures
        shell_run(relay, events).1.len() == events.len(),
    decreases events.len(),
{
    if events.len() > 0 {
        lemma_shell_run_len(shell_step(relay, events[0]).0, events.drop_first());
    }
}

/// The action at position `i` of a run is the step taken on event `i`, from
/// the state that the events before it led to.
pub proof fn lemma_shell_run_at(relay: ShellRelay, events: Seq<ShellEventView>, i: int)
    requires
        0 <= i < events.len(),
    ensures
        shell_run(relay, events).1.len() == events.len(),
        shell_run(relay, events).1[i] == shell_step(
            shell_run(relay, events.take(i)).0,
            events[i],
        ).1,
    decreases events.len(),
{
    lemma_shell_run_len(relay, events);
    let next = shell_step(relay, events[0]).0;
    let rest = events.drop_first();
    lemma_shell_run_len(next, rest);
    if i == 0 {
        assert(events.take(0).len() == 0);
    } else {
        lemma_shell_run_at(next, rest, i - 1);
        assert(events.take(i).drop_first() == rest.take(i - 1));
        assert(events.take(i)[0] == events[0]);
    }
}

/// Once a session is not open it never opens again, and it asks for nothing
/// more: no byte is written, no frame is sent. It is closed from the first
/// `Exited` on.
pub proof fn lemma_shell_run_after_teardown(relay: ShellRelay, events: Seq<ShellEventView>)
    requires
        relay.session != Session::Open,
    ensures
        shell_run(relay, events).0.session != Session::Open,
        forall|i: int|
            0 <= i < events.len() ==> #[trigger] shell_run(relay, events).1[i]
                == ShellActionView::Nothing,
        written_input(shell_run(relay, events).1) == Seq::<u8>::empty(),
        events.contains(ShellEventView::Exited) ==> shell_run(relay, events).0.session is Closed,
        relay.session is Closed ==> shell_run(relay, events).0.session == relay.session,
    decreases events.len(),
{
    lemma_shell_run_len(relay, events);
    if events.len() > 0 {
        let (next, action) = shell_step(relay, events[0]);
        let rest = events.drop_first();
        lemma_shell_run_after_teardown(next, rest);
        lemma_shell_run_len(next, rest);
        let actions = shell_run(next, rest).1;
        let all = seq![action] + actions;
        assert(all.drop_first() == actions);
        assert forall|i: int| 0 <= i < events.len() implies #[trigger] shell_run(relay, events).1[i]
            == ShellActionView::Nothing by {
            if i > 0 {
                assert(all[i] == actions[i - 1]);
            }
        }
        if events.contains(ShellEventView::Exited) {
            let k = choose|k: int| 0 <= k < events.len() && events[k] == ShellEventView::Exited;
            if k > 0 {
                assert(rest[k - 1] == events[k]);
            }
        }
    }
}

/// Teardown of a shell session is idempotent: a second trigger, of any kind,
/// changes nothing and asks for nothing.
pub proof fn lemma_shell_teardown_idempotent(
    relay: ShellRelay,
    first: ShellEventView,
    second: ShellEventView,
)
    requires
        shell_close_cause(first) is Some,
        shell_close_cause(second) is Some,
    ensures
        shell_step(shell_step(relay, first).0, second) == (
            shell_step(relay, first).0,
            ShellActionView::Nothing,
        ),
{
}

/// What is written to the input of the process is what inbound frames
/// carried, byte for byte and in the order of arrival: always a prefix of it,
/// and all of it as long as the session is open.
pub proof fn lemma_shell_input_in_order(relay: ShellRelay, events: Seq<ShellEventView>)
    requires
        relay.session == Session::Open,
    ensures
        written_input(shell_run(relay, events).1).is_prefix_of(received_input(events)),
        shell_run(relay, events).0.session == Session::Open ==> written_input(
            shell_run(relay, events).1,
        ) == received_input(events),
    decreases events.len(),
{
    if events.len() > 0 {
        let (next, action) = shell_step(relay, events[0]);
        let rest = events.drop_first();
        let actions = shell_run(next, rest).1;
        let all = seq![action] + actions;
        assert(all.drop_first() == actions);
        assert(all[0] == action);
        if next.session == Session::Open {
            lemma_shell_input_in_order(next, rest);
            let head = match events[0] {
                ShellEventView::Input(bytes) => bytes,
                _ => Seq::empty(),
            };
            let w = written_input(actions);
            let r = received_input(rest);
            assert(written_input(all) == head + w);
            assert((head + w).is_prefix_of(head + r)) by {
                assert forall|i: int| 0 <= i < (head + w).len() implies (head + w)[i] == (head
                    + r)[i] by {
                    if i >= head.len() {
                        assert(w[i - head.len()] == r[i - head.len()]);
                    }
                }
            }
        } else {
            lemma_shell_run_after_teardown(next, rest);
            assert(written_input(all) == Seq::<u8>::empty());
        }
    }
}

/// Every binary frame that a run sends holds exactly the bytes of the one
/// chunk that the event at the same position brought, and every chunk that
/// arrives while the session is open and its stream is forwarded goes out so.
pub proof fn lemma_shell_frames_are_chunks(relay: ShellRelay, events: Seq<ShellEventView>, i: int)
    requires
        0 <= i < events.len(),
    ensures
        shell_run(relay, events).1.len() == events.len(),
        shell_run(relay, events).1[i] matches ShellActionView::SendBinary(frame) ==> (events[i] matches ShellEventView::Chunk {
            channel,
            bytes,
        } && frame == bytes),
        events[i] matches ShellEventView::Chunk { channel, bytes } ==> {
            let before = shell_run(relay, events.take(i)).0;
            before.session == Session::Open && forwarding(before, channel) ==> shell_run(
                relay,
                events,
            ).1[i] == ShellActionView::SendBinary(bytes)
        },
{
    lemma_shell_run_at(relay, events, i);
}

} // verus!
