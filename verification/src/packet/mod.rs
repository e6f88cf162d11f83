//! The wire-level packet and its codec.
//!
//! A frame is a 16-byte header followed by the body, all integers big-endian:
//!
//! ```text
//! [total_length u32][header_length u16][protocol u16][operation u32][seq_id u32][body ...]
//! ```

use vstd::prelude::*;
use vstd::slice::slice_subrange;
use vstd::slice::slice_to_vec;

use crate::errors::IncompleteResult;
use crate::errors::Needed;
use crate::errors::ParseError;
use crate::wire::be_u16;
use crate::wire::be_u32;
use crate::wire::get_u16;
use crate::wire::get_u32;
use crate::wire::i32_from_be;
use crate::wire::put_u16;
use crate::wire::put_u32;
use crate::wire::u16_from_be;
use crate::wire::u32_from_be;

pub mod compression;
pub mod json;
pub mod laws;
pub mod types;

use compression::deflate;
use compression::inflate;
use compression::inflate_error;
use compression::inflated;
use compression::zlib_deflated;
use compression::zlib_inflated;
use json::is_json;
use json::json_from_slice;

pub use types::Operation;
pub use types::Protocol;
use types::operation_of;
use types::protocol_of;

verus! {

/// Length of the fixed packet header, in bytes.
pub const HEADER_LENGTH: u16 = 16;

/// The sequence id of a packet that was given none.
pub const DEFAULT_SEQ_ID: u32 = 1;

/// What a packet is, apart from how it is stored: the two tags, the sequence
/// id and the body. The two length fields of the header follow from the body.
pub struct PacketView {
    pub op: Operation,
    pub protocol: Protocol,
    pub seq_id: u32,
    pub body: Seq<u8>,
}

impl PacketView {
    /// A packet can be framed when header and body together fit the 32-bit
    /// length field.
    pub open spec fn framable(self) -> bool {
        HEADER_LENGTH + self.body.len() <= u32::MAX
    }

    /// The value of the total-length field: header and body together.
    pub open spec fn total_length(self) -> nat {
        HEADER_LENGTH as nat + self.body.len()
    }
}

/// The bytes of the frame that carries `p`.
pub open spec fn spec_encode(p: PacketView) -> Seq<u8> {
    be_u32(p.total_length() as u32) + be_u16(HEADER_LENGTH) + be_u16(p.protocol.spec_tag())
        + be_u32(p.op.spec_code()) + be_u32(p.seq_id) + p.body
}

/// The number of bytes that a frame occupies according to the length field at
/// its start, and never less than a header.
pub open spec fn frame_extent(input: Seq<u8>) -> nat
    recommends
        input.len() >= 4,
{
    let total = u32_from_be(input.subrange(0, 4));
    if total < HEADER_LENGTH {
        HEADER_LENGTH as nat
    } else {
        total as nat
    }
}

/// What the start of `input` holds, read as one frame without touching the
/// body: a packet and the bytes after it, or how much is missing, or why no
/// frame can start here. In this order:
///
/// - With fewer than four bytes the length is not known yet, and what is
///   missing is the rest of a header.
/// - With the length known, what is missing is the rest of the frame, and
///   of the header where the length field says less than a header.
/// - A total length under the header length cannot be completed by any known
///   number of bytes.
/// - A header length other than 16 is a malformed header.
/// - A protocol tag that names no protocol is an unknown protocol.
/// - Otherwise the frame is complete: the body runs from the end of the
///   header to the total length, and the rest of the input follows it.
pub open spec fn spec_parse_raw(input: Seq<u8>) -> IncompleteResult<(Seq<u8>, PacketView)> {
    if input.len() < 4 {
        IncompleteResult::Incomplete(Needed::Size((HEADER_LENGTH - input.len()) as usize))
    } else if input.len() < frame_extent(input) {
        IncompleteResult::Incomplete(Needed::Size((frame_extent(input) - input.len()) as usize))
    } else {
        let total = u32_from_be(input.subrange(0, 4));
        let header = u16_from_be(input.subrange(4, 6));
        if total < header {
            IncompleteResult::Incomplete(Needed::Unknown)
        } else if header != HEADER_LENGTH {
            IncompleteResult::Error(ParseError::PacketFormat)
        } else {
            match protocol_of(u16_from_be(input.subrange(6, 8))) {
                None => IncompleteResult::Error(ParseError::UnknownProtocol),
                Some(protocol) => IncompleteResult::Complete(
                    (
                        input.subrange(total as int, input.len() as int),
                        PacketView {
                            op: operation_of(u32_from_be(input.subrange(8, 12))),
                            protocol,
                            seq_id: u32_from_be(input.subrange(12, 16)),
                            body: input.subrange(HEADER_LENGTH as int, total as int),
                        },
                    ),
                ),
            }
        }
    }
}

/// The first packet of an inflated batch. A batch that does not start with
/// one whole, well-formed frame is malformed.
pub open spec fn spec_parse_inflated(batch: Seq<u8>) -> Result<PacketView, ParseError> {
    match spec_parse_raw(batch) {
        IncompleteResult::Complete((_, inner)) => Ok(inner),
        _ => Err(ParseError::PacketFormat),
    }
}

/// What the start of `input` holds, read as one frame and unpacked: where the
/// frame carries a compressed batch, the packet is the first one of the
/// inflated batch, and the rest of the input is still what follows the frame.
pub open spec fn spec_parse(input: Seq<u8>) -> IncompleteResult<(Seq<u8>, PacketView)> {
    match spec_parse_raw(input) {
        IncompleteResult::Complete((rest, outer)) => {
            if outer.protocol.spec_is_compressed() {
                match inflated(outer.protocol, outer.body) {
                    None => IncompleteResult::Error(inflate_error(outer.protocol)),
                    Some(batch) => match spec_parse_inflated(batch) {
                        Ok(inner) => IncompleteResult::Complete((rest, inner)),
                        Err(e) => IncompleteResult::Error(e),
                    },
                }
            } else {
                IncompleteResult::Complete((rest, outer))
            }
        },
        other => other,
    }
}

/// The packet that carries `stream` as the compressed form of a packet with
/// operation `op`.
pub open spec fn spec_envelope(op: Operation, stream: Seq<u8>) -> PacketView {
    PacketView { op, protocol: Protocol::Zlib, seq_id: DEFAULT_SEQ_ID, body: stream }
}

/// Bililive packet.
///
/// A packet can be encoded into and parsed from the raw frames of the live
/// feed, and gives access to what it carries.
#[derive(Debug, Eq, PartialEq, Hash)]
pub struct Packet {
    packet_length: u32,
    header_length: u16,
    protocol_version: Protocol,
    op: Operation,
    seq_id: u32,
    data: Vec<u8>,
}

impl View for Packet {
    type V = PacketView;

    closed spec fn view(&self) -> PacketView {
        PacketView {
            op: self.op,
            protocol: self.protocol_version,
            seq_id: self.seq_id,
            body: self.data@,
        }
    }
}

impl Packet {
    /// The header length is fixed and the total length covers header and body.
    #[verifier::type_invariant]
    closed spec fn inv(self) -> bool {
        &&& self.header_length == HEADER_LENGTH
        &&& self.packet_length == HEADER_LENGTH + self.data@.len()
    }
}

impl Clone for Packet {
    fn clone(&self) -> (p: Self)
        ensures
            p@ == self@,
            p@.framable(),
    {
        proof {
            use_type_invariant(self);
        }
        Packet {
            packet_length: self.packet_length,
            header_length: self.header_length,
            protocol_version: self.protocol_version,
            op: self.op,
            seq_id: self.seq_id,
            data: self.data.clone(),
        }
    }
}

impl Packet {
    /// Construct a new packet with the default sequence id.
    ///
    /// To construct a compressed packet, create a JSON or heartbeat packet
    /// first, then call [`Packet::compress`] on it.
    pub fn new(op: Operation, protocol_version: Protocol, data: Vec<u8>) -> (p: Self)
        requires
            HEADER_LENGTH + data@.len() <= u32::MAX,
        ensures
            p@ == (PacketView { op, protocol: protocol_version, seq_id: DEFAULT_SEQ_ID, body: data@ }),
            p@.framable(),
    {
        Packet {
            packet_length: data.len() as u32 + 16,
            header_length: HEADER_LENGTH,
            protocol_version,
            op,
            seq_id: DEFAULT_SEQ_ID,
            data,
        }
    }

    /// Set the protocol version.
    pub fn set_proto(&mut self, protocol_version: Protocol)
        ensures
            final(self)@ == (PacketView { protocol: protocol_version, ..old(self)@ }),
    {
        proof {
            use_type_invariant(&*self);
        }
        self.protocol_version = protocol_version;
    }

    /// Set the operation.
    pub fn set_op(&mut self, op: Operation)
        ensures
            final(self)@ == (PacketView { op, ..old(self)@ }),
    {
        proof {
            use_type_invariant(&*self);
        }
        self.op = op;
    }

    /// Set the sequence id. By default it is 1.
    pub fn set_seq_id(&mut self, seq_id: u32)
        ensures
            final(self)@ == (PacketView { seq_id, ..old(self)@ }),
    {
        proof {
            use_type_invariant(&*self);
        }
        self.seq_id = seq_id;
    }

    /// Set the packet body. The total length follows the new body.
    pub fn set_data(&mut self, data: Vec<u8>)
        requires
            HEADER_LENGTH + data@.len() <= u32::MAX,
        ensures
            final(self)@ == (PacketView { body: data@, ..old(self)@ }),
            final(self)@.framable(),
    {
        *self = Packet {
            packet_length: data.len() as u32 + 16,
            header_length: HEADER_LENGTH,
            protocol_version: self.protocol_version,
            op: self.op,
            seq_id: self.seq_id,
            data,
        };
    }

    /// Get the packet length: header and body together.
    pub fn packet_length(&self) -> (n: u32)
        ensures
            n == self@.total_length(),
            self@.framable(),
    {
        proof {
            use_type_invariant(self);
        }
        self.packet_length
    }

    /// Get the header length, which is always 16.
    pub fn header_length(&self) -> (n: u16)
        ensures
            n == HEADER_LENGTH,
    {
        proof {
            use_type_invariant(self);
        }
        self.header_length
    }

    /// Get the sequence id.
    pub fn seq_id(&self) -> (n: u32)
        ensures
            n == self@.seq_id,
    {
        self.seq_id
    }

    /// Get the operation.
    pub fn op(&self) -> (op: Operation)
        ensures
            op == self@.op,
    {
        self.op
    }

    /// Get the protocol version.
    pub fn proto(&self) -> (protocol: Protocol)
        ensures
            protocol == self@.protocol,
    {
        self.protocol_version
    }

    /// Get bytes of the body.
    pub fn bytes(&self) -> (body: &[u8])
        ensures
            body@ == self@.body,
    {
        self.data.as_slice()
    }

    /// Try to read the body as JSON.
    ///
    /// This succeeds exactly when the body is one JSON value; whether it is
    /// of the wanted shape is for the reader of the value to say.
    pub fn json(&self) -> (r: Result<serde_json::Value, ParseError>)
        ensures
            r is Ok <==> is_json(self@.body),
            r matches Err(e) ==> e == ParseError::Json,
    {
        match json_from_slice(self.data.as_slice()) {
            Ok(value) => Ok(value),
            Err(_) => Err(ParseError::Json),
        }
    }

    /// Try to read the body as one big-endian 32-bit integer.
    ///
    /// This succeeds exactly when the body is four bytes long.
    pub fn int32_be(&self) -> (r: Result<i32, ParseError>)
        ensures
            self@.body.len() == 4 ==> r == Ok::<i32, ParseError>(i32_from_be(self@.body)),
            self@.body.len() != 4 ==> r == Err::<i32, ParseError>(ParseError::Int32BE),
    {
        if self.data.len() != 4 {
            return Err(ParseError::Int32BE);
        }
        let u: u32 = get_u32(self.data.as_slice(), 0);
        assert(self.data@.subrange(0, 4) =~= self.data@);
        if u >= 0x8000_0000 {
            Ok((u as i64 - 0x1_0000_0000) as i32)
        } else {
            Ok(u as i32)
        }
    }

    /// Encode the packet into the bytes of one frame.
    pub fn encode(&self) -> (bytes: Vec<u8>)
        ensures
            bytes@ == spec_encode(self@),
            self@.framable(),
    {
        proof {
            use_type_invariant(self);
        }
        let mut buf: Vec<u8> = Vec::with_capacity(self.packet_length as usize);
        put_u32(&mut buf, self.packet_length);
        put_u16(&mut buf, self.header_length);
        put_u16(&mut buf, self.protocol_version.tag());
        put_u32(&mut buf, self.op.code());
        put_u32(&mut buf, self.seq_id);
        buf.extend_from_slice(self.data.as_slice());
        assert(buf@ =~= spec_encode(self@));
        buf
    }

    /// Read one frame from the start of `input` and leave its body as it is,
    /// compressed or not.
    ///
    /// Returns the packet and the input after it; or, when the input ends
    /// before the frame does, how many bytes are missing; or why no frame can
    /// start here.
    pub fn parse_raw(input: &[u8]) -> (r: IncompleteResult<(&[u8], Packet)>)
        ensures
            r@ == spec_parse_raw(input@),
            r matches IncompleteResult::Complete((_, p)) ==> p@.framable(),
    {
        let len = input.len();
        if len < 4 {
            return IncompleteResult::Incomplete(Needed::Size(16 - len));
        }
        let total: u32 = get_u32(input, 0);
        let extent: usize = if total < 16 {
            16
        } else {
            total as usize
        };
        if len < extent {
            return IncompleteResult::Incomplete(Needed::Size(extent - len));
        }
        let header: u16 = get_u16(input, 4);
        if total < header as u32 {
            return IncompleteResult::Incomplete(Needed::Unknown);
        }
        if header != HEADER_LENGTH {
            return IncompleteResult::Error(ParseError::PacketFormat);
        }
        let protocol = match Protocol::try_from(get_u16(input, 6)) {
            Ok(protocol) => protocol,
            Err(e) => {
                return IncompleteResult::Error(e);
            },
        };
        let op = Operation::from(get_u32(input, 8));
        let seq_id: u32 = get_u32(input, 12);
        let data: Vec<u8> = slice_to_vec(slice_subrange(input, 16, total as usize));
        let rest = slice_subrange(input, total as usize, len);
        let packet = Packet {
            packet_length: total,
            header_length: HEADER_LENGTH,
            protocol_version: protocol,
            op,
            seq_id,
            data,
        };
        IncompleteResult::Complete((rest, packet))
    }

    /// The first packet of an inflated batch.
    ///
    /// Fails with a format error unless the batch starts with one whole,
    /// well-formed frame.
    pub fn parse_inflated(batch: &[u8]) -> (r: Result<Packet, ParseError>)
        ensures
            match r {
                Ok(p) => spec_parse_inflated(batch@) == Ok::<PacketView, ParseError>(p@)
                    && p@.framable(),
                Err(e) => spec_parse_inflated(batch@) == Err::<PacketView, ParseError>(e),
            },
    {
        match Packet::parse_raw(batch) {
            IncompleteResult::Complete((_, inner)) => Ok(inner),
            IncompleteResult::Incomplete(_) => Err(ParseError::PacketFormat),
            IncompleteResult::Error(_) => Err(ParseError::PacketFormat),
        }
    }

    /// Parse one packet from the start of `input`.
    ///
    /// A frame that carries a compressed batch is inflated, and the packet
    /// returned is the first one of the batch. The input returned is what
    /// follows the frame on the wire.
    pub fn parse(input: &[u8]) -> (r: IncompleteResult<(&[u8], Packet)>)
        ensures
            r@ == spec_parse(input@),
            r matches IncompleteResult::Complete((_, p)) ==> p@.framable(),
    {
        match Packet::parse_raw(input) {
            IncompleteResult::Complete((rest, outer)) => {
                if outer.protocol_version.is_compressed() {
                    match inflate(outer.protocol_version, outer.data.as_slice()) {
                        Err(e) => IncompleteResult::Error(e),
                        Ok(batch) => match Packet::parse_inflated(batch.as_slice()) {
                            Ok(inner) => IncompleteResult::Complete((rest, inner)),
                            Err(e) => IncompleteResult::Error(e),
                        },
                    }
                } else {
                    IncompleteResult::Complete((rest, outer))
                }
            },
            IncompleteResult::Incomplete(needed) => IncompleteResult::Incomplete(needed),
            IncompleteResult::Error(e) => IncompleteResult::Error(e),
        }
    }

    /// Wrap a zlib stream into the packet that carries it: protocol `Zlib`,
    /// the given operation, the default sequence id.
    ///
    /// Fails with a format error exactly when the stream is too long for the
    /// 32-bit length field.
    pub fn envelope(op: Operation, stream: Vec<u8>) -> (r: Result<Packet, ParseError>)
        ensures
            HEADER_LENGTH + stream@.len() <= u32::MAX ==> r is Ok && r.unwrap()@ == spec_envelope(
                op,
                stream@,
            ),
            HEADER_LENGTH + stream@.len() > u32::MAX ==> r == Err::<Packet, ParseError>(
                ParseError::PacketFormat,
            ),
    {
        if stream.len() > 0xffff_ffef {
            Err(ParseError::PacketFormat)
        } else {
            Ok(Packet::new(op, Protocol::Zlib, stream))
        }
    }

    /// Convert a JSON or heartbeat packet to a compressed one: the whole
    /// encoded packet becomes the zlib-compressed body of a new packet with
    /// the same operation and the default sequence id.
    ///
    /// Fails with a format error exactly when the compressed stream is too
    /// long for the 32-bit length field. Inflating the body of the result
    /// gives the encoding of the packet that was compressed.
    pub fn compress(self) -> (r: Result<Packet, ParseError>)
        ensures
            HEADER_LENGTH + zlib_deflated(spec_encode(self@)).len() <= u32::MAX ==> r is Ok
                && r.unwrap()@ == spec_envelope(self@.op, zlib_deflated(spec_encode(self@)))
                && r.unwrap()@.framable() && zlib_inflated(r.unwrap()@.body) == Some(
                spec_encode(self@),
            ),
            HEADER_LENGTH + zlib_deflated(spec_encode(self@)).len() > u32::MAX ==> r == Err::<
                Packet,
                ParseError,
            >(ParseError::PacketFormat),
    {
        let raw = self.encode();
        match deflate(raw.as_slice()) {
            Ok(stream) => Packet::envelope(self.op, stream),
            Err(e) => Err(e),
        }
    }
}

} // verus!
