//! What the task of one connection does next.

use crate::config::connection::{
    delay_with_jitter, next_attempt, next_attempt_after, random_u64, reconnect_delay,
};
use crate::models::notification::{NtfyMessage, NtfyMessageView};
use crate::services::connection_manager::ConnectionManager;
use crate::services::ntfy_client::{message_of_line, NtfyClient};
use vstd::prelude::*;

verus! {

/// Where the task of a connection stands.
#[derive(Debug, Clone, Copy, PartialEq, Eq, Structural)]
pub enum ConnectionState {
    /// Not started yet.
    Idle,
    /// Opening the stream.
    Connecting,
    /// Reading the stream.
    Streaming,
    /// Waiting before it connects again.
    Backoff,
    /// Finished for good.
    Stopped,
}

/// What happened to the task of a connection.
#[derive(Debug)]
pub enum ConnectionEvent {
    /// The task was started.
    Started,
    /// The stream is open.
    Connected,
    /// The stream could not be opened.
    ConnectFailed,
    /// A frame of text arrived.
    Frame(String),
    /// Reading the stream failed.
    StreamFailed,
    /// The peer closed the stream.
    StreamClosed,
    /// The waiting time is over.
    DelayElapsed,
    /// The task was told to stop.
    ShutdownRequested,
}

/// An event, as plain values.
pub enum ConnectionEventView {
    Started,
    Connected,
    ConnectFailed,
    Frame(Seq<char>),
    StreamFailed,
    StreamClosed,
    DelayElapsed,
    ShutdownRequested,
}

impl View for ConnectionEvent {
    type V = ConnectionEventView;

    open spec fn view(&self) -> ConnectionEventView {
        match self {
            ConnectionEvent::Started => ConnectionEventView::Started,
            ConnectionEvent::Connected => ConnectionEventView::Connected,
            ConnectionEvent::ConnectFailed => ConnectionEventView::ConnectFailed,
            ConnectionEvent::Frame(t) => ConnectionEventView::Frame(t@),
            ConnectionEvent::StreamFailed => ConnectionEventView::StreamFailed,
            ConnectionEvent::StreamClosed => ConnectionEventView::StreamClosed,
            ConnectionEvent::DelayElapsed => ConnectionEventView::DelayElapsed,
            ConnectionEvent::ShutdownRequested => ConnectionEventView::ShutdownRequested,
        }
    }
}

/// What the task of a connection is to do.
#[derive(Debug)]
pub enum ConnectionAction {
    /// Open the stream, signing in as the plan says.
    Connect,
    /// Read the next frame.
    Receive,
    /// Hand the message to the notification sink, then read the next frame.
    Deliver(NtfyMessage),
    /// Wait this many seconds.
    Sleep(u64),
    /// End the task.
    Exit,
}

/// An action, as plain values.
pub enum ConnectionActionView {
    Connect,
    Receive,
    Deliver(NtfyMessageView),
    Sleep(u64),
    Exit,
}

impl View for ConnectionAction {
    type V = ConnectionActionView;

    open spec fn view(&self) -> ConnectionActionView {
        match self {
            ConnectionAction::Connect => ConnectionActionView::Connect,
            ConnectionAction::Receive => ConnectionActionView::Receive,
            ConnectionAction::Deliver(m) => ConnectionActionView::Deliver(m@),
            ConnectionAction::Sleep(s) => ConnectionActionView::Sleep(*s),
            ConnectionAction::Exit => ConnectionActionView::Exit,
        }
    }
}

/// The task of one connection: its state and the count of failures in a
/// row.
#[derive(Debug)]
pub struct ConnectionTask {
    pub subscription_id: String,
    pub connection_id: u64,
    pub state: ConnectionState,
    pub reconnect_attempt: usize,
}

/// A task, as plain values.
pub struct ConnectionTaskView {
    pub subscription_id: Seq<char>,
    pub connection_id: u64,
    pub state: ConnectionState,
    pub reconnect_attempt: nat,
}

impl View for ConnectionTask {
    type V = ConnectionTaskView;

    open spec fn view(&self) -> ConnectionTaskView {
        ConnectionTaskView {
            subscription_id: self.subscription_id@,
            connection_id: self.connection_id,
            state: self.state,
            reconnect_attempt: self.reconnect_attempt as nat,
        }
    }
}

/// The state and count of failures that follow, and what the task is to
/// do, when `event` happens to a task in `state` after `attempt` failures
/// in a row. `is_current` says whether the task's connection is the
/// current one of its subscription, and `random` gives the random part of
/// a waiting time.
///
/// A task that is told to stop ends, and so does one whose connection is
/// no longer the current one, whatever happens to it: it is asked at every
/// step, and so before every attempt to connect. Otherwise a task starts
/// to connect at its start and after each wait; after a wait the count of
/// failures goes up. An open stream sets the count back to none. A frame
/// that denotes a message of a user is delivered, any other frame passed
/// over. A stream that fails or is closed, and one that cannot be opened,
/// make the task wait. An event that cannot happen in a state ends the
/// task.
pub open spec fn transition(
    state: ConnectionState,
    attempt: nat,
    event: ConnectionEventView,
    is_current: bool,
    random: u64,
) -> (ConnectionState, nat, ConnectionActionView) {
    if event == ConnectionEventView::ShutdownRequested || !is_current {
        (ConnectionState::Stopped, attempt, ConnectionActionView::Exit)
    } else {
        match (state, event) {
            (ConnectionState::Idle, ConnectionEventView::Started) => (
                ConnectionState::Connecting,
                0,
                ConnectionActionView::Connect,
            ),
            (ConnectionState::Connecting, ConnectionEventView::Connected) => (
                ConnectionState::Streaming,
                0,
                ConnectionActionView::Receive,
            ),
            (ConnectionState::Connecting, ConnectionEventView::ConnectFailed) => (
                ConnectionState::Backoff,
                attempt,
                ConnectionActionView::Sleep(reconnect_delay(attempt, random) as u64),
            ),
            (ConnectionState::Streaming, ConnectionEventView::Frame(text)) => (
                ConnectionState::Streaming,
                attempt,
                match message_of_line(text) {
                    Some(m) => ConnectionActionView::Deliver(m),
                    None => ConnectionActionView::Receive,
                },
            ),
            (ConnectionState::Streaming, ConnectionEventView::StreamFailed) => (
                ConnectionState::Backoff,
                attempt,
                ConnectionActionView::Sleep(reconnect_delay(attempt, random) as u64),
            ),
            (ConnectionState::Streaming, ConnectionEventView::StreamClosed) => (
                ConnectionState::Backoff,
                attempt,
                ConnectionActionView::Sleep(reconnect_delay(attempt, random) as u64),
            ),
            (ConnectionState::Backoff, ConnectionEventView::DelayElapsed) => (
                ConnectionState::Connecting,
                next_attempt(attempt),
                ConnectionActionView::Connect,
            ),
            _ => (ConnectionState::Stopped, attempt, ConnectionActionView::Exit),
        }
    }
}

impl ConnectionTask {
    /// The task of a connection that was planned, before its start.
    pub fn new(subscription_id: String, connection_id: u64) -> (r: ConnectionTask)
        ensures
            r@ == (ConnectionTaskView {
                subscription_id: subscription_id@,
                connection_id,
                state: ConnectionState::Idle,
                reconnect_attempt: 0,
            }),
    {
        ConnectionTask {
            subscription_id,
            connection_id,
            state: ConnectionState::Idle,
            reconnect_attempt: 0,
        }
    }

    /// Takes the task one step on: `event` happened, `is_current` says
    /// whether the task's connection is still the current one of its
    /// subscription, and `random` gives the random part of a waiting time.
    pub fn step_with(&mut self, event: ConnectionEvent, is_current: bool, random: u64) -> (r:
        ConnectionAction)
        ensures
            final(self)@.subscription_id == old(self)@.subscription_id,
            final(self)@.connection_id == old(self)@.connection_id,
            (final(self)@.state, final(self)@.reconnect_attempt, r@) == transition(
                old(self)@.state,
                old(self)@.reconnect_attempt,
                event@,
                is_current,
                random,
            ),
    {
        if !is_current {
            self.state = ConnectionState::Stopped;
            return ConnectionAction::Exit;
        }
        match (self.state, event) {
            (_, ConnectionEvent::ShutdownRequested) => {
                self.state = ConnectionState::Stopped;
                ConnectionAction::Exit
            },
            (ConnectionState::Idle, ConnectionEvent::Started) => {
                self.state = ConnectionState::Connecting;
                self.reconnect_attempt = 0;
                ConnectionAction::Connect
            },
            (ConnectionState::Connecting, ConnectionEvent::Connected) => {
                self.state = ConnectionState::Streaming;
                self.reconnect_attempt = 0;
                ConnectionAction::Receive
            },
            (ConnectionState::Connecting, ConnectionEvent::ConnectFailed) => {
                self.state = ConnectionState::Backoff;
                ConnectionAction::Sleep(delay_with_jitter(self.reconnect_attempt, random))
            },
            (ConnectionState::Streaming, ConnectionEvent::Frame(text)) => {
                match NtfyClient::parse_line(text.as_str()) {
                    Some(m) => ConnectionAction::Deliver(m),
                    None => ConnectionAction::Receive,
                }
            },
            (ConnectionState::Streaming, ConnectionEvent::StreamFailed) => {
                self.state = ConnectionState::Backoff;
                ConnectionAction::Sleep(delay_with_jitter(self.reconnect_attempt, random))
            },
            (ConnectionState::Streaming, ConnectionEvent::StreamClosed) => {
                self.state = ConnectionState::Backoff;
                ConnectionAction::Sleep(delay_with_jitter(self.reconnect_attempt, random))
            },
            (ConnectionState::Backoff, ConnectionEvent::DelayElapsed) => {
                self.state = ConnectionState::Connecting;
                self.reconnect_attempt = next_attempt_after(self.reconnect_attempt);
                ConnectionAction::Connect
            },
            _ => {
                self.state = ConnectionState::Stopped;
                ConnectionAction::Exit
            },
        }
    }

    /// Takes the task one step on: `event` happened. Whether the task's
    /// connection is still the current one is looked up in the table, and
    /// the random part of a waiting time is drawn.
    pub fn step(&mut self, manager: &ConnectionManager, event: ConnectionEvent) -> (r:
        ConnectionAction)
        ensures
            final(self)@.subscription_id == old(self)@.subscription_id,
            final(self)@.connection_id == old(self)@.connection_id,
            exists|random: u64|
                (final(self)@.state, final(self)@.reconnect_attempt, r@) == #[trigger] transition(
                    old(self)@.state,
                    old(self)@.reconnect_attempt,
                    event@,
                    manager@.is_current(old(self)@.subscription_id, old(self)@.connection_id),
                    random,
                ),
    {
        let is_current = manager.is_current(self.subscription_id.as_str(), self.connection_id);
        let random = random_u64();
        let ghost before = self@;
        let ghost happened = event@;
        let r = self.step_with(event, is_current, random);
        assert((self@.state, self@.reconnect_attempt, r@) == transition(
            before.state,
            before.reconnect_attempt,
            happened,
            is_current,
            random,
        ));
        r
    }
}

} // verus!
