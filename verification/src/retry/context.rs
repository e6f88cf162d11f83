//! The state that a stream keeps across reconnects.

use vstd::prelude::*;

use crate::errors::TransportError;

verus! {

/// What a retry context holds, as plain values.
pub struct RetryContextView {
    /// Attempts to connect that have failed since the count was last reset.
    pub attempts: nat,
    /// The index of the server that the next attempt goes to.
    pub cursor: nat,
    /// The number of servers that the cursor goes round.
    pub servers: nat,
    /// The failure seen last, if any.
    pub last_failure: Option<TransportError>,
}

impl RetryContextView {
    /// There is a server, and the cursor points at one. The numbers are
    /// ones that the machine can hold.
    pub open spec fn wf(self) -> bool {
        &&& self.cursor < self.servers
        &&& self.servers <= usize::MAX
        &&& self.attempts <= u32::MAX
    }

    /// The context after an attempt to connect has been issued: the cursor
    /// has moved on by one server, round the list.
    pub open spec fn advanced(self) -> RetryContextView {
        RetryContextView { cursor: (self.cursor + 1) % self.servers, ..self }
    }

    /// The context after an established connection has been lost.
    pub open spec fn lost(self, kind: TransportError) -> RetryContextView {
        RetryContextView { last_failure: Some(kind), ..self }
    }

    /// The context after the connection has served a receive.
    pub open spec fn served(self) -> RetryContextView {
        RetryContextView { attempts: 0, ..self }
    }

    /// The context after an attempt to connect has failed.
    pub open spec fn failed(self, kind: TransportError) -> RetryContextView {
        RetryContextView {
            attempts: if self.attempts < u32::MAX {
                self.attempts + 1
            } else {
                self.attempts
            },
            last_failure: Some(kind),
            ..self
        }
    }
}

/// Per-stream state of the retry policy: the count of failed attempts, the
/// rotation cursor into the server list, and the last failure.
#[derive(Debug)]
pub struct RetryContext {
    attempts: u32,
    cursor: usize,
    servers: usize,
    last_failure: Option<TransportError>,
}

impl View for RetryContext {
    type V = RetryContextView;

    closed spec fn view(&self) -> RetryContextView {
        RetryContextView {
            attempts: self.attempts as nat,
            cursor: self.cursor as nat,
            servers: self.servers as nat,
            last_failure: self.last_failure,
        }
    }
}

impl RetryContext {
    #[verifier::type_invariant]
    closed spec fn inv(self) -> bool {
        self.cursor < self.servers
    }

    /// A fresh context for a list of `servers` servers: nothing has failed,
    /// and the first attempt goes to the first server.
    pub fn new(servers: usize) -> (c: Self)
        requires
            servers > 0,
        ensures
            c@ == (RetryContextView {
                attempts: 0,
                cursor: 0,
                servers: servers as nat,
                last_failure: None,
            }),
            c@.wf(),
    {
        RetryContext { attempts: 0, cursor: 0, servers, last_failure: None }
    }

    /// Attempts to connect that have failed since the count was last reset.
    pub fn attempts(&self) -> (n: u32)
        ensures
            n == self@.attempts,
            self@.wf(),
    {
        proof {
            use_type_invariant(self);
        }
        self.attempts
    }

    /// The failure seen last, if any.
    pub fn last_failure(&self) -> (kind: Option<TransportError>)
        ensures
            kind == self@.last_failure,
    {
        self.last_failure
    }

    /// The index of the server that the next attempt goes to.
    pub fn cursor(&self) -> (index: usize)
        ensures
            index == self@.cursor,
            index < self@.servers,
    {
        proof {
            use_type_invariant(self);
        }
        self.cursor
    }

    /// Pick the server for an attempt to connect, and move the cursor on to
    /// the next server, round the list.
    pub fn next_server(&mut self) -> (index: usize)
        ensures
            index == old(self)@.cursor,
            index < old(self)@.servers,
            final(self)@ == old(self)@.advanced(),
            final(self)@.wf(),
    {
        proof {
            use_type_invariant(&*self);
        }
        let index = self.cursor;
        let next: usize = if index + 1 == self.servers {
            0
        } else {
            index + 1
        };
        assert(next == (index + 1) % (self.servers as int)) by {
            if index + 1 == self.servers {
                assert((self.servers as int) % (self.servers as int) == 0) by (nonlinear_arith)
                    requires
                        self.servers > 0,
                ;
            } else {
                assert((index + 1) % (self.servers as int) == index + 1) by (nonlinear_arith)
                    requires
                        0 <= index + 1 < self.servers,
                ;
            }
        }
        self.cursor = next;
        index
    }

    /// Record that an attempt to connect has failed.
    pub fn record_failure(&mut self, kind: TransportError)
        ensures
            final(self)@ == old(self)@.failed(kind),
            final(self)@.wf(),
    {
        proof {
            use_type_invariant(&*self);
        }
        if self.attempts < u32::MAX {
            self.attempts = self.attempts + 1;
        }
        self.last_failure = Some(kind);
    }

    /// Record that an established connection has been lost. This is no
    /// failed attempt to connect: the count stays as it is.
    pub fn record_loss(&mut self, kind: TransportError)
        ensures
            final(self)@ == old(self)@.lost(kind),
            final(self)@.wf(),
    {
        proof {
            use_type_invariant(&*self);
        }
        self.last_failure = Some(kind);
    }

    /// Record that the connection has served a receive: the count of failed
    /// attempts starts again at zero.
    pub fn reset(&mut self)
        ensures
            final(self)@ == old(self)@.served(),
            final(self)@.wf(),
    {
        proof {
            use_type_invariant(&*self);
        }
        self.attempts = 0;
    }
}

} // verus!
