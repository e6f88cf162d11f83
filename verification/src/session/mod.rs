//! The session of one stream: joining the room, and what to do when the
//! connection fails.
//!
//! The session decides and the caller acts. Every event of the stream (a
//! handshake that succeeded or failed, a packet, a lost connection, the
//! consumer closing or dropping the stream) is handed to
//! [`Session::step`], which moves the session to its next state and
//! answers with the one thing to do next.
//!
//! ```text
//! Disconnected -> Connecting -> Connected -> (failure) -> Reconnecting -> Connected ...
//!                                         -> (close)   -> Closed
//! ```
//!
//! A lost connection is surfaced to the consumer as a transient I/O error
//! and the stream goes on; only the retry limit and the consumer end it.

use vstd::prelude::*;

use crate::config::StreamConfig;
use crate::errors::TransportError;
use crate::packet::types::Operation;
use crate::retry::config::spec_nominal_delay;
use crate::retry::config::RetryConfig;
use crate::retry::config::RetryConfigView;
use crate::retry::context::RetryContext;
use crate::retry::context::RetryContextView;

pub mod enter;
pub mod laws;

verus! {

/// Where a stream stands.
#[derive(Debug, Copy, Clone, Eq, PartialEq, Hash, Structural)]
pub enum StreamState {
    /// Nothing has been attempted yet.
    Disconnected,
    /// The first connection is being established.
    Connecting,
    /// The connection stands.
    Connected,
    /// A connection was lost and the next one is being established.
    Reconnecting,
    /// The stream has ended, by the consumer or by the retry limit.
    Closed,
}

/// What happened to a stream.
#[derive(Debug, Copy, Clone, Eq, PartialEq, Hash, Structural)]
pub enum Event {
    /// The consumer asks for the stream to be established.
    Start,
    /// The handshake that was asked for succeeded.
    Established,
    /// The handshake that was asked for failed.
    Refused(TransportError),
    /// A packet with this operation arrived.
    Received(Operation),
    /// The connection failed, or the underlying stream ended.
    Lost(TransportError),
    /// The consumer closed the stream.
    Close,
    /// The consumer dropped the stream.
    Dropped,
}

/// What the caller is to do next.
#[derive(Debug, Copy, Clone, Eq, PartialEq, Hash, Structural)]
pub enum Action {
    /// Nothing.
    Idle,
    /// Wait for the delay, moved by jitter, then attempt a handshake with the
    /// server at this index of the configuration's list.
    Connect { server: usize, delay_ms: u64 },
    /// Send the room-enter packet.
    EnterRoom,
    /// Hand the packet to the consumer.
    Deliver,
    /// Hand a protocol error to the consumer in place of the packet.
    Reject,
    /// Hand a transient I/O error to the consumer, then attempt a handshake
    /// with the server at this index at once.
    Recover { server: usize },
    /// Hand the terminal error of the retry limit to the consumer and end
    /// the stream.
    GiveUp,
    /// Cancel what is scheduled, close the socket, and end the stream.
    Shutdown,
}

/// What a session holds, as plain values.
pub struct SessionView {
    pub state: StreamState,
    /// Whether the room has acknowledged the room-enter packet on the
    /// connection that stands.
    pub joined: bool,
    pub context: RetryContextView,
    pub retry: RetryConfigView,
}

impl SessionView {
    /// The context points at a server and the policy is a valid one.
    pub open spec fn wf(self) -> bool {
        self.context.wf() && self.retry.wf()
    }
}

/// Whether `attempts` failed attempts are as many as the policy allows.
pub open spec fn exhausted(retry: RetryConfigView, attempts: nat) -> bool {
    retry.max_attempts matches Some(limit) && attempts >= limit
}

/// Whether a connection is being established in this state.
pub open spec fn establishing(state: StreamState) -> bool {
    state == StreamState::Connecting || state == StreamState::Reconnecting
}

/// The session after an event, and what is to be done.
///
/// - A closed session stays closed and asks for nothing.
/// - Closing or dropping ends the session from any other state.
/// - `Start` opens the first attempt, at once.
/// - A handshake that succeeds is followed by the room-enter packet; one
///   that fails is counted, and either ends the stream, where the count has
///   reached the limit, or is followed by the next attempt after the delay
///   that belongs to the count before it.
/// - Every attempt goes to the server under the cursor and moves the cursor
///   on.
/// - A packet that arrives sets the count of failed attempts back to zero.
///   Until the room has acknowledged, only the acknowledgement is delivered.
/// - A lost connection is surfaced, not counted, and followed by an attempt
///   at once.
/// - An event that does not belong to the state changes nothing.
pub open spec fn spec_step(s: SessionView, e: Event) -> (SessionView, Action) {
    if s.state == StreamState::Closed {
        (s, Action::Idle)
    } else {
        match e {
            Event::Close | Event::Dropped => (
                SessionView { state: StreamState::Closed, joined: false, ..s },
                Action::Shutdown,
            ),
            Event::Start => if s.state == StreamState::Disconnected {
                (
                    SessionView {
                        state: StreamState::Connecting,
                        context: s.context.advanced(),
                        ..s
                    },
                    Action::Connect { server: s.context.cursor as usize, delay_ms: 0 },
                )
            } else {
                (s, Action::Idle)
            },
            Event::Established => if establishing(s.state) {
                (SessionView { state: StreamState::Connected, joined: false, ..s }, Action::EnterRoom)
            } else {
                (s, Action::Idle)
            },
            Event::Refused(kind) => if establishing(s.state) {
                let failed = s.context.failed(kind);
                if exhausted(s.retry, failed.attempts) {
                    (
                        SessionView { state: StreamState::Closed, context: failed, ..s },
                        Action::GiveUp,
                    )
                } else {
                    (
                        SessionView { context: failed.advanced(), ..s },
                        Action::Connect {
                            server: s.context.cursor as usize,
                            delay_ms: spec_nominal_delay(s.retry, s.context.attempts) as u64,
                        },
                    )
                }
            } else {
                (s, Action::Idle)
            },
            Event::Received(op) => if s.state == StreamState::Connected {
                if s.joined || op == Operation::RoomEnterResponse {
                    (SessionView { joined: true, context: s.context.served(), ..s }, Action::Deliver)
                } else {
                    (SessionView { context: s.context.served(), ..s }, Action::Reject)
                }
            } else {
                (s, Action::Idle)
            },
            Event::Lost(kind) => if s.state == StreamState::Connected {
                (
                    SessionView {
                        state: StreamState::Reconnecting,
                        joined: false,
                        context: s.context.lost(kind).advanced(),
                        ..s
                    },
                    Action::Recover { server: s.context.cursor as usize },
                )
            } else {
                (s, Action::Idle)
            },
        }
    }
}

/// The session of one stream.
#[derive(Debug)]
pub struct Session {
    state: StreamState,
    joined: bool,
    context: RetryContext,
    retry: RetryConfig,
}

impl View for Session {
    type V = SessionView;

    closed spec fn view(&self) -> SessionView {
        SessionView {
            state: self.state,
            joined: self.joined,
            context: self.context@,
            retry: self.retry@,
        }
    }
}

impl Session {
    /// A session for the servers of `config`, under the policy `retry`:
    /// disconnected, with nothing failed, and the first server next.
    pub fn new(config: &StreamConfig, retry: RetryConfig) -> (s: Self)
        ensures
            s@ == (SessionView {
                state: StreamState::Disconnected,
                joined: false,
                context: RetryContextView {
                    attempts: 0,
                    cursor: 0,
                    servers: config@.servers.len(),
                    last_failure: None,
                },
                retry: retry@,
            }),
            s@.wf(),
    {
        let servers = config.servers().len();
        let _ = retry.max_attempts();
        Session {
            state: StreamState::Disconnected,
            joined: false,
            context: RetryContext::new(servers),
            retry,
        }
    }

    /// Where the stream stands.
    pub fn state(&self) -> (state: StreamState)
        ensures
            state == self@.state,
    {
        self.state
    }

    /// Whether the room has acknowledged the room-enter packet on the
    /// connection that stands.
    pub fn is_joined(&self) -> (joined: bool)
        ensures
            joined == self@.joined,
    {
        self.joined
    }

    /// The retry state of the stream.
    pub fn context(&self) -> (context: &RetryContext)
        ensures
            context@ == self@.context,
    {
        &self.context
    }

    /// The retry policy of the stream.
    pub fn retry(&self) -> (retry: &RetryConfig)
        ensures
            retry@ == self@.retry,
    {
        &self.retry
    }

    /// Take in an event: move to the next state and say what to do.
    pub fn step(&mut self, event: Event) -> (action: Action)
        ensures
            (final(self)@, action) == spec_step(old(self)@, event),
            final(self)@.wf(),
    {
        let _ = self.context.attempts();
        let _ = self.retry.max_attempts();
        if self.state == StreamState::Closed {
            return Action::Idle;
        }
        match event {
            Event::Close | Event::Dropped => {
                self.state = StreamState::Closed;
                self.joined = false;
                Action::Shutdown
            },
            Event::Start => {
                if self.state == StreamState::Disconnected {
                    let server = self.context.next_server();
                    self.state = StreamState::Connecting;
                    Action::Connect { server, delay_ms: 0 }
                } else {
                    Action::Idle
                }
            },
            Event::Established => {
                if self.state == StreamState::Connecting || self.state == StreamState::Reconnecting {
                    self.state = StreamState::Connected;
                    self.joined = false;
                    Action::EnterRoom
                } else {
                    Action::Idle
                }
            },
            Event::Refused(kind) => {
                if self.state == StreamState::Connecting || self.state == StreamState::Reconnecting {
                    let before = self.context.attempts();
                    self.context.record_failure(kind);
                    let limit_reached = match self.retry.max_attempts() {
                        Some(limit) => self.context.attempts() >= limit,
                        None => false,
                    };
                    if limit_reached {
                        self.state = StreamState::Closed;
                        Action::GiveUp
                    } else {
                        let delay_ms = self.retry.nominal_delay(before);
                        let server = self.context.next_server();
                        Action::Connect { server, delay_ms }
                    }
                } else {
                    Action::Idle
                }
            },
            Event::Received(op) => {
                if self.state == StreamState::Connected {
                    self.context.reset();
                    if self.joined || op == Operation::RoomEnterResponse {
                        self.joined = true;
                        Action::Deliver
                    } else {
                        Action::Reject
                    }
                } else {
                    Action::Idle
                }
            },
            Event::Lost(kind) => {
                if self.state == StreamState::Connected {
                    self.context.record_loss(kind);
                    let server = self.context.next_server();
                    self.state = StreamState::Reconnecting;
                    self.joined = false;
                    Action::Recover { server }
                } else {
                    Action::Idle
                }
            },
        }
    }
}

} // verus!
