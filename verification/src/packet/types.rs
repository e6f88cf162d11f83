//! Operation and protocol tags carried in a packet header.

use vstd::prelude::*;

use crate::errors::ParseError;

verus! {

/// Live event types, tagged over the 32-bit operation field of the header.
///
/// `Unknown` carries the numeric value found on the wire, so that a packet
/// with an operation this library does not know re-encodes unchanged.
#[derive(Debug, Copy, Clone, Eq, PartialEq, Ord, PartialOrd, Hash, Structural)]
pub enum Operation {
    HandShake,
    HeartBeat,
    HeartBeatResponse,
    Notification,
    RoomEnter,
    RoomEnterResponse,
    Unknown(u32),
}

/// The operation that a 32-bit wire value stands for.
pub open spec fn operation_of(code: u32) -> Operation {
    if code == 0 {
        Operation::HandShake
    } else if code == 2 {
        Operation::HeartBeat
    } else if code == 3 {
        Operation::HeartBeatResponse
    } else if code == 5 {
        Operation::Notification
    } else if code == 7 {
        Operation::RoomEnter
    } else if code == 8 {
        Operation::RoomEnterResponse
    } else {
        Operation::Unknown(code)
    }
}

impl Operation {
    /// The 32-bit value written to the wire for this operation.
    pub open spec fn spec_code(self) -> u32 {
        match self {
            Operation::HandShake => 0,
            Operation::HeartBeat => 2,
            Operation::HeartBeatResponse => 3,
            Operation::Notification => 5,
            Operation::RoomEnter => 7,
            Operation::RoomEnterResponse => 8,
            Operation::Unknown(code) => code,
        }
    }

    /// An operation is canonical when it is the one that its own wire value
    /// decodes to: every named variant is, and `Unknown(c)` is unless `c` is
    /// the value of a named variant.
    pub open spec fn is_canonical(self) -> bool {
        operation_of(self.spec_code()) == self
    }

    /// The 32-bit value written to the wire for this operation.
    #[verifier::when_used_as_spec(spec_code)]
    pub fn code(self) -> (code: u32)
        ensures
            code == self.spec_code(),
    {
        match self {
            Operation::HandShake => 0,
            Operation::HeartBeat => 2,
            Operation::HeartBeatResponse => 3,
            Operation::Notification => 5,
            Operation::RoomEnter => 7,
            Operation::RoomEnterResponse => 8,
            Operation::Unknown(code) => code,
        }
    }
}

impl From<u32> for Operation {
    /// Total: a value that names no known operation becomes `Unknown` and
    /// keeps the value.
    fn from(i: u32) -> (op: Self)
        ensures
            op == operation_of(i),
    {
        match i {
            0 => Operation::HandShake,
            2 => Operation::HeartBeat,
            3 => Operation::HeartBeatResponse,
            5 => Operation::Notification,
            7 => Operation::RoomEnter,
            8 => Operation::RoomEnterResponse,
            _ => Operation::Unknown(i),
        }
    }
}

impl vstd::std_specs::convert::FromSpecImpl<u32> for Operation {
    open spec fn obeys_from_spec() -> bool {
        true
    }

    open spec fn from_spec(i: u32) -> Self {
        operation_of(i)
    }
}

/// Protocol types: the format of a packet's body, tagged over the 16-bit
/// protocol field of the header.
#[derive(Debug, Copy, Clone, Eq, PartialEq, Ord, PartialOrd, Hash, Structural)]
pub enum Protocol {
    /// The body is UTF-8 JSON.
    Json,
    /// The body is one big-endian 32-bit integer.
    Heartbeat,
    /// The body is a zlib stream that inflates to back-to-back packets.
    Zlib,
    /// The body is a brotli stream that inflates to back-to-back packets.
    Brotli,
}

/// The protocol that a 16-bit wire value stands for, if any.
pub open spec fn protocol_of(tag: u16) -> Option<Protocol> {
    if tag == 0 {
        Some(Protocol::Json)
    } else if tag == 1 {
        Some(Protocol::Heartbeat)
    } else if tag == 2 {
        Some(Protocol::Zlib)
    } else if tag == 3 {
        Some(Protocol::Brotli)
    } else {
        None
    }
}

impl Protocol {
    /// The 16-bit value written to the wire for this protocol.
    pub open spec fn spec_tag(self) -> u16 {
        match self {
            Protocol::Json => 0,
            Protocol::Heartbeat => 1,
            Protocol::Zlib => 2,
            Protocol::Brotli => 3,
        }
    }

    /// Whether a body of this protocol is a compressed batch.
    pub open spec fn spec_is_compressed(self) -> bool {
        self == Protocol::Zlib || self == Protocol::Brotli
    }

    /// The 16-bit value written to the wire for this protocol.
    #[verifier::when_used_as_spec(spec_tag)]
    pub fn tag(self) -> (tag: u16)
        ensures
            tag == self.spec_tag(),
    {
        match self {
            Protocol::Json => 0,
            Protocol::Heartbeat => 1,
            Protocol::Zlib => 2,
            Protocol::Brotli => 3,
        }
    }

    /// Whether a body of this protocol is a compressed batch.
    #[verifier::when_used_as_spec(spec_is_compressed)]
    pub fn is_compressed(self) -> (b: bool)
        ensures
            b == self.spec_is_compressed(),
    {
        match self {
            Protocol::Zlib => true,
            Protocol::Brotli => true,
            _ => false,
        }
    }
}

impl TryFrom<u16> for Protocol {
    type Error = ParseError;

    /// Succeeds exactly on the four known tags; any other value is an
    /// unknown protocol.
    fn try_from(value: u16) -> (r: Result<Self, Self::Error>)
        ensures
            r == match protocol_of(value) {
                Some(p) => Ok::<Protocol, ParseError>(p),
                None => Err(ParseError::UnknownProtocol),
            },
    {
        match value {
            0 => Ok(Protocol::Json),
            1 => Ok(Protocol::Heartbeat),
            2 => Ok(Protocol::Zlib),
            3 => Ok(Protocol::Brotli),
            _ => Err(ParseError::UnknownProtocol),
        }
    }
}

impl vstd::std_specs::convert::TryFromSpecImpl<u16> for Protocol {
    open spec fn obeys_try_from_spec() -> bool {
        true
    }

    open spec fn try_from_spec(value: u16) -> Result<Self, Self::Error> {
        match protocol_of(value) {
            Some(p) => Ok(p),
            None => Err(ParseError::UnknownProtocol),
        }
    }
}

/// A wire value decodes to a protocol exactly when it is 0, 1, 2 or 3, and
/// the protocol then encodes to the same value.
pub proof fn lemma_protocol_partial(tag: u16)
    ensures
        protocol_of(tag) is Some <==> tag <= 3,
        protocol_of(tag) matches Some(p) ==> p.spec_tag() == tag,
{
}

/// Every protocol decodes from its own wire value.
pub proof fn lemma_protocol_total(p: Protocol)
    ensures
        protocol_of(p.spec_tag()) == Some(p),
        p.spec_tag() <= 3,
{
}

/// Every wire value decodes to an operation that encodes to the same value.
pub proof fn lemma_operation_total(code: u32)
    ensures
        operation_of(code).spec_code() == code,
        operation_of(code).is_canonical(),
{
}

} // verus!
