//! What holds of every encoded frame, and of parsing what was encoded.

use vstd::prelude::*;

use crate::errors::IncompleteResult;
use crate::packet::compression::inflated;
use crate::packet::compression::zlib_inflated;
use crate::packet::spec_encode;
use crate::packet::spec_envelope;
use crate::packet::spec_parse;
use crate::packet::spec_parse_inflated;
use crate::packet::spec_parse_raw;
use crate::packet::types::operation_of;
use crate::packet::types::Protocol;
use crate::packet::PacketView;
use crate::packet::HEADER_LENGTH;
use crate::wire::be_u16;
use crate::wire::be_u32;
use crate::wire::lemma_be_u16_roundtrip;
use crate::wire::lemma_be_u32_roundtrip;
use crate::wire::u16_from_be;
use crate::wire::u32_from_be;

verus! {

/// The six fields of an encoded frame, each where the layout puts it.
pub proof fn lemma_encode_layout(p: PacketView, tail: Seq<u8>)
    requires
        p.framable(),
    ensures
        (spec_encode(p) + tail).len() == p.total_length() + tail.len(),
        (spec_encode(p) + tail).subrange(0, 4) == be_u32(p.total_length() as u32),
        (spec_encode(p) + tail).subrange(4, 6) == be_u16(HEADER_LENGTH),
        (spec_encode(p) + tail).subrange(6, 8) == be_u16(p.protocol.spec_tag()),
        (spec_encode(p) + tail).subrange(8, 12) == be_u32(p.op.spec_code()),
        (spec_encode(p) + tail).subrange(12, 16) == be_u32(p.seq_id),
        (spec_encode(p) + tail).subrange(16, p.total_length() as int) == p.body,
        (spec_encode(p) + tail).subrange(
            p.total_length() as int,
            (spec_encode(p) + tail).len() as int,
        ) == tail,
{
    let bytes = spec_encode(p) + tail;
    assert(bytes.subrange(0, 4) =~= be_u32(p.total_length() as u32));
    assert(bytes.subrange(4, 6) =~= be_u16(HEADER_LENGTH));
    assert(bytes.subrange(6, 8) =~= be_u16(p.protocol.spec_tag()));
    assert(bytes.subrange(8, 12) =~= be_u32(p.op.spec_code()));
    assert(bytes.subrange(12, 16) =~= be_u32(p.seq_id));
    assert(bytes.subrange(16, p.total_length() as int) =~= p.body);
    assert(bytes.subrange(p.total_length() as int, bytes.len() as int) =~= tail);
}

/// Header length constant: bytes 4 and 5 of every encoded frame spell 16.
pub proof fn lemma_encoded_header_length(p: PacketView)
    requires
        p.framable(),
    ensures
        spec_encode(p).subrange(4, 6) == seq![0x00u8, 0x10u8],
        u16_from_be(spec_encode(p).subrange(4, 6)) == 16,
{
    lemma_encode_layout(p, Seq::empty());
    assert(spec_encode(p) + Seq::<u8>::empty() =~= spec_encode(p));
    assert(be_u16(HEADER_LENGTH) =~= seq![0x00u8, 0x10u8]);
}

/// Length self-consistency: the first four bytes of every encoded frame spell
/// the length of the frame.
pub proof fn lemma_encoded_length(p: PacketView)
    requires
        p.framable(),
    ensures
        u32_from_be(spec_encode(p).subrange(0, 4)) == spec_encode(p).len(),
        spec_encode(p).len() == p.total_length(),
{
    lemma_encode_layout(p, Seq::empty());
    assert(spec_encode(p) + Seq::<u8>::empty() =~= spec_encode(p));
    lemma_be_u32_roundtrip(p.total_length() as u32);
}

/// Reading one frame from an encoded packet followed by anything gives the
/// packet back, whatever its protocol, and leaves what followed. The
/// operation comes back as the one that its wire value decodes to.
pub proof fn lemma_parse_raw_encode(p: PacketView, tail: Seq<u8>)
    requires
        p.framable(),
    ensures
        spec_parse_raw(spec_encode(p) + tail) == IncompleteResult::Complete(
            (tail, PacketView { op: operation_of(p.op.spec_code()), ..p }),
        ),
{
    let bytes = spec_encode(p) + tail;
    lemma_encode_layout(p, tail);
    lemma_be_u32_roundtrip(p.total_length() as u32);
    lemma_be_u16_roundtrip(HEADER_LENGTH);
    lemma_be_u16_roundtrip(p.protocol.spec_tag());
    lemma_be_u32_roundtrip(p.op.spec_code());
    lemma_be_u32_roundtrip(p.seq_id);
    let parsed = spec_parse_raw(bytes);
    assert(parsed matches IncompleteResult::Complete((rest, q)) && rest == tail && q.op
        == operation_of(p.op.spec_code()) && q.protocol == p.protocol && q.seq_id == p.seq_id
        && q.body == p.body);
}

/// Round trip: a JSON or heartbeat packet, encoded and parsed, comes back as
/// it was, with no input left over.
///
/// The operation has to be canonical: `Unknown(c)` with `c` the value of a
/// named operation encodes to bytes that parse as the named one.
pub proof fn lemma_parse_encode_roundtrip(p: PacketView)
    requires
        p.framable(),
        p.op.is_canonical(),
        p.protocol == Protocol::Json || p.protocol == Protocol::Heartbeat,
    ensures
        spec_parse(spec_encode(p)) == IncompleteResult::Complete((Seq::<u8>::empty(), p)),
{
    lemma_parse_raw_encode(p, Seq::empty());
    assert(spec_encode(p) + Seq::<u8>::empty() =~= spec_encode(p));
}

/// A packet that parsing gives can always be framed again.
pub proof fn lemma_parsed_is_framable(input: Seq<u8>)
    ensures
        spec_parse_raw(input) matches IncompleteResult::Complete((rest, p)) ==> p.framable()
            && p.op.is_canonical() && rest.len() + p.total_length() == input.len(),
{
}

/// Compression round trip: where `stream` inflates to the encoding of `p`,
/// parsing the encoded envelope of `stream` gives `p` itself, sequence id
/// included.
pub proof fn lemma_parse_compressed(p: PacketView, stream: Seq<u8>)
    requires
        p.framable(),
        p.op.is_canonical(),
        HEADER_LENGTH + stream.len() <= u32::MAX,
        zlib_inflated(stream) == Some(spec_encode(p)),
    ensures
        spec_parse(spec_encode(spec_envelope(p.op, stream))) == IncompleteResult::Complete(
            (Seq::<u8>::empty(), p),
        ),
{
    let outer = spec_envelope(p.op, stream);
    lemma_parse_raw_encode(outer, Seq::empty());
    assert(spec_encode(outer) + Seq::<u8>::empty() =~= spec_encode(outer));
    lemma_parse_raw_encode(p, Seq::empty());
    assert(spec_encode(p) + Seq::<u8>::empty() =~= spec_encode(p));
    assert(inflated(outer.protocol, outer.body) == Some(spec_encode(p)));
    assert(spec_parse_inflated(spec_encode(p)) == Ok::<PacketView, crate::errors::ParseError>(p));
}

} // verus!
