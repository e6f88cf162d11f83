//! Turns the byte payloads of received frames into a sequence of packets.
//!
//! Payloads are appended to a buffer and packets are taken from its front one
//! at a time. A frame that carries a compressed batch is inflated when it is
//! reached, and the packets of the batch come out one by one, in wire order,
//! before anything that followed the frame.

use vstd::prelude::*;
use vstd::slice::slice_subrange;

use crate::errors::IncompleteResult;
use crate::errors::ParseError;
use crate::packet::compression::inflate;
use crate::packet::compression::inflate_error;
use crate::packet::compression::inflated;
use crate::packet::compression::zlib_inflated;
use crate::packet::laws::lemma_parse_raw_encode;
use crate::packet::laws::lemma_parsed_is_framable;
use crate::packet::spec_encode;
use crate::packet::spec_envelope;
use crate::packet::spec_parse_raw;
use crate::packet::Packet;
use crate::packet::PacketView;
use crate::packet::HEADER_LENGTH;

verus! {

/// What a decoder holds, as plain sequences.
pub struct DecoderView {
    /// Received bytes that no packet has been taken from yet.
    pub pending: Seq<u8>,
    /// What is left of the inflated batch that is being handed out.
    pub batch: Seq<u8>,
}

/// One step of decoding: the state afterwards and what comes out, if
/// anything.
///
/// - While a batch is being handed out, its next packet comes out. A batch
///   that does not continue with a whole frame is dropped with a format
///   error.
/// - Otherwise the front of the pending bytes is read as a frame. A partial
///   frame gives nothing and consumes nothing. A frame that cannot be read
///   gives its error, and everything pending is dropped with it. A plain
///   frame gives its packet. A compressed frame is inflated and gives the
///   first packet of its batch; the outer envelope itself never comes out.
pub open spec fn spec_next(s: DecoderView) -> (DecoderView, Option<Result<PacketView, ParseError>>) {
    if s.batch.len() > 0 {
        spec_next_of_batch(s.pending, s.batch)
    } else {
        match spec_parse_raw(s.pending) {
            IncompleteResult::Incomplete(_) => (s, None),
            IncompleteResult::Error(e) => (
                DecoderView { pending: Seq::empty(), batch: Seq::empty() },
                Some(Err(e)),
            ),
            IncompleteResult::Complete((rest, outer)) => {
                if outer.protocol.spec_is_compressed() {
                    match inflated(outer.protocol, outer.body) {
                        None => (
                            DecoderView { pending: rest, batch: Seq::empty() },
                            Some(Err(inflate_error(outer.protocol))),
                        ),
                        Some(batch) => spec_next_of_batch(rest, batch),
                    }
                } else {
                    (DecoderView { pending: rest, batch: Seq::empty() }, Some(Ok(outer)))
                }
            },
        }
    }
}

/// Taking the next packet out of a batch, with `pending` left as it is.
pub open spec fn spec_next_of_batch(pending: Seq<u8>, batch: Seq<u8>) -> (
    DecoderView,
    Option<Result<PacketView, ParseError>>,
) {
    match spec_parse_raw(batch) {
        IncompleteResult::Complete((rest, inner)) => (
            DecoderView { pending, batch: rest },
            Some(Ok(inner)),
        ),
        _ => (
            DecoderView { pending, batch: Seq::empty() },
            Some(Err(ParseError::PacketFormat)),
        ),
    }
}

/// Whether an item that the decoder handed out is the one that the model
/// gives.
pub open spec fn item_matches(
    item: Option<Result<Packet, ParseError>>,
    model: Option<Result<PacketView, ParseError>>,
) -> bool {
    match (item, model) {
        (None, None) => true,
        (Some(Ok(p)), Some(Ok(v))) => p@ == v && p@.framable(),
        (Some(Err(e)), Some(Err(f))) => e == f,
        _ => false,
    }
}

/// Decoder of received frames into packets.
#[derive(Debug)]
pub struct FrameDecoder {
    /// Received bytes that no packet has been taken from yet.
    buf: Vec<u8>,
    /// The inflated batch that is being handed out.
    batch: Vec<u8>,
    /// Where in `batch` the next packet starts; at or past the end when no
    /// batch is being handed out.
    at: usize,
}

impl View for FrameDecoder {
    type V = DecoderView;

    closed spec fn view(&self) -> DecoderView {
        DecoderView {
            pending: self.buf@,
            batch: if self.at <= self.batch@.len() {
                self.batch@.subrange(self.at as int, self.batch@.len() as int)
            } else {
                Seq::empty()
            },
        }
    }
}

impl FrameDecoder {
    /// A decoder that has received nothing.
    pub fn new() -> (d: Self)
        ensures
            d@ == (DecoderView { pending: Seq::empty(), batch: Seq::empty() }),
    {
        let d = FrameDecoder { buf: Vec::new(), batch: Vec::new(), at: 0 };
        assert(d@.batch =~= Seq::<u8>::empty());
        d
    }

    /// Whether nothing is left to decode: no pending bytes and no batch.
    pub fn is_idle(&self) -> (b: bool)
        ensures
            b == (self@.pending.len() == 0 && self@.batch.len() == 0),
    {
        self.buf.len() == 0 && self.at >= self.batch.len()
    }

    /// Append the payload of a received frame to the pending bytes.
    pub fn feed(&mut self, payload: &[u8])
        ensures
            final(self)@ == (DecoderView {
                pending: old(self)@.pending + payload@,
                batch: old(self)@.batch,
            }),
    {
        self.buf.extend_from_slice(payload);
        assert(self.buf@ =~= old(self)@.pending + payload@);
    }

    /// Start handing out `batch`, which must not be empty, and take its first
    /// packet.
    fn next_of_batch(&mut self) -> (item: Option<Result<Packet, ParseError>>)
        requires
            old(self).at < old(self).batch@.len(),
        ensures
            item_matches(item, spec_next_of_batch(old(self)@.pending, old(self)@.batch).1),
            final(self)@ == spec_next_of_batch(old(self)@.pending, old(self)@.batch).0,
    {
        let len = self.batch.len();
        let parsed = Packet::parse_raw(slice_subrange(self.batch.as_slice(), self.at, len));
        match parsed {
            IncompleteResult::Complete((rest, inner)) => {
                let left = rest.len();
                proof {
                    lemma_parsed_is_framable(old(self)@.batch);
                    assert(self.batch@.subrange(len - left, len as int) =~= rest@);
                }
                self.at = len - left;
                Some(Ok(inner))
            },
            _ => {
                self.at = len;
                assert(self@.batch =~= Seq::<u8>::empty());
                Some(Err(ParseError::PacketFormat))
            },
        }
    }

    /// Take the next packet, if the bytes received so far hold one.
    ///
    /// `None` means that more input is needed; nothing was consumed. An error
    /// is handed out once, in place of the packets that the malformed input
    /// would have given, and decoding goes on after it.
    pub fn next(&mut self) -> (item: Option<Result<Packet, ParseError>>)
        ensures
            item_matches(item, spec_next(old(self)@).1),
            final(self)@ == spec_next(old(self)@).0,
    {
        if self.at < self.batch.len() {
            return self.next_of_batch();
        }
        let len = self.buf.len();
        let parsed = Packet::parse_raw(self.buf.as_slice());
        match parsed {
            IncompleteResult::Incomplete(_) => None,
            IncompleteResult::Error(e) => {
                self.buf = Vec::new();
                self.batch = Vec::new();
                self.at = 0;
                assert(self@.batch =~= Seq::<u8>::empty());
                Some(Err(e))
            },
            IncompleteResult::Complete((rest, outer)) => {
                let left = rest.len();
                proof {
                    lemma_parsed_is_framable(old(self)@.pending);
                    assert(self.buf@.subrange(len - left, len as int) =~= rest@);
                }
                let tail = self.buf.split_off(len - left);
                self.buf = tail;
                if outer.proto().is_compressed() {
                    match inflate(outer.proto(), outer.bytes()) {
                        Err(e) => {
                            self.batch = Vec::new();
                            self.at = 0;
                            assert(self@.batch =~= Seq::<u8>::empty());
                            Some(Err(e))
                        },
                        Ok(batch) => {
                            if batch.len() == 0 {
                                self.batch = Vec::new();
                                self.at = 0;
                                assert(self@.batch =~= Seq::<u8>::empty());
                                Some(Err(ParseError::PacketFormat))
                            } else {
                                self.batch = batch;
                                self.at = 0;
                                assert(self@.batch =~= self.batch@);
                                self.next_of_batch()
                            }
                        },
                    }
                } else {
                    self.batch = Vec::new();
                    self.at = 0;
                    assert(self@.batch =~= Seq::<u8>::empty());
                    Some(Ok(outer))
                }
            },
        }
    }
}

/// The bytes of the packets of `ps`, each encoded, one after the other.
pub open spec fn spec_encode_all(ps: Seq<PacketView>) -> Seq<u8>
    decreases ps.len(),
{
    if ps.len() == 0 {
        Seq::empty()
    } else {
        spec_encode(ps[0]) + spec_encode_all(ps.drop_first())
    }
}

/// `n` steps of decoding from `s`: the state afterwards and what came out,
/// step by step.
pub open spec fn spec_take(s: DecoderView, n: nat) -> (
    DecoderView,
    Seq<Option<Result<PacketView, ParseError>>>,
)
    decreases n,
{
    if n == 0 {
        (s, Seq::empty())
    } else {
        let (after, item) = spec_next(s);
        let (end, items) = spec_take(after, (n - 1) as nat);
        (end, seq![item] + items)
    }
}

/// The items that a decoder hands out when it decodes exactly `ps`.
pub open spec fn delivered(ps: Seq<PacketView>) -> Seq<Option<Result<PacketView, ParseError>>> {
    Seq::new(ps.len(), |i: int| Some(Ok(ps[i])))
}

/// Whether every packet of `ps` can be framed and has a canonical operation.
pub open spec fn all_encodable(ps: Seq<PacketView>) -> bool {
    forall|i: int| 0 <= i < ps.len() ==> (#[trigger] ps[i]).framable() && ps[i].op.is_canonical()
}

/// A batch that is the encoding of `ps` comes out as `ps`, in order, in as
/// many steps as it has packets, and leaves the pending bytes untouched.
pub proof fn lemma_take_batch(pending: Seq<u8>, ps: Seq<PacketView>)
    requires
        all_encodable(ps),
    ensures
        spec_take(DecoderView { pending, batch: spec_encode_all(ps) }, ps.len()) == (
            DecoderView { pending, batch: Seq::empty() },
            delivered(ps),
        ),
    decreases ps.len(),
{
    let s = DecoderView { pending, batch: spec_encode_all(ps) };
    if ps.len() == 0 {
        assert(delivered(ps) =~= Seq::empty());
    } else {
        let rest = ps.drop_first();
        let tail = spec_encode_all(rest);
        lemma_parse_raw_encode(ps[0], tail);
        assert(spec_encode(ps[0]).len() >= 16);
        assert(spec_next(s) == (DecoderView { pending, batch: tail }, Some(Ok::<PacketView, ParseError>(ps[0]))));
        assert(all_encodable(rest)) by {
            assert forall|i: int| 0 <= i < rest.len() implies (#[trigger] rest[i]).framable()
                && rest[i].op.is_canonical() by {
                assert(rest[i] == ps[i + 1]);
            }
        }
        lemma_take_batch(pending, rest);
        assert(seq![Some(Ok::<PacketView, ParseError>(ps[0]))] + delivered(rest) =~= delivered(ps));
    }
}

/// Batch fan-out: a decoder that is fed one compressed frame whose body
/// inflates to the encodings of `ps`, one after the other, hands out exactly
/// the packets of `ps`, in order, and then asks for more input.
///
/// A batch holds at least one packet; the envelope itself is not handed out,
/// and nothing of it is inherited by the packets.
pub proof fn lemma_batch_fan_out(envelope: PacketView, ps: Seq<PacketView>)
    requires
        envelope.framable(),
        envelope.protocol.spec_is_compressed(),
        inflated(envelope.protocol, envelope.body) == Some(spec_encode_all(ps)),
        ps.len() >= 1,
        all_encodable(ps),
    ensures
        ({
            let start = DecoderView { pending: spec_encode(envelope), batch: Seq::empty() };
            let idle = DecoderView { pending: Seq::empty(), batch: Seq::empty() };
            &&& spec_take(start, ps.len()) == (idle, delivered(ps))
            &&& spec_next(idle) == (idle, None::<Result<PacketView, ParseError>>)
        }),
{
    let start = DecoderView { pending: spec_encode(envelope), batch: Seq::empty() };
    let idle = DecoderView { pending: Seq::<u8>::empty(), batch: Seq::<u8>::empty() };
    let rest = ps.drop_first();
    let tail = spec_encode_all(rest);
    lemma_parse_raw_encode(envelope, Seq::empty());
    assert(spec_encode(envelope) + Seq::<u8>::empty() =~= spec_encode(envelope));
    lemma_parse_raw_encode(ps[0], tail);
    assert(spec_next(start) == (DecoderView { pending: Seq::empty(), batch: tail }, Some(Ok::<PacketView, ParseError>(ps[0]))));
    assert(all_encodable(rest)) by {
        assert forall|i: int| 0 <= i < rest.len() implies (#[trigger] rest[i]).framable()
            && rest[i].op.is_canonical() by {
            assert(rest[i] == ps[i + 1]);
        }
    }
    lemma_take_batch(Seq::empty(), rest);
    assert(seq![Some(Ok::<PacketView, ParseError>(ps[0]))] + delivered(rest) =~= delivered(ps));
}

/// Compression round trip: where `stream` is what compressing `p` gave, so
/// that it inflates to the encoding of `p`, a decoder that is fed the
/// encoded envelope of `stream` hands out `p` first, sequence id included,
/// and is idle afterwards.
pub proof fn lemma_compressed_comes_back(p: PacketView, stream: Seq<u8>)
    requires
        p.framable(),
        p.op.is_canonical(),
        HEADER_LENGTH + stream.len() <= u32::MAX,
        zlib_inflated(stream) == Some(spec_encode(p)),
    ensures
        spec_next(
            DecoderView {
                pending: spec_encode(spec_envelope(p.op, stream)),
                batch: Seq::empty(),
            },
        ) == (
            DecoderView { pending: Seq::empty(), batch: Seq::empty() },
            Some(Ok::<PacketView, ParseError>(p)),
        ),
{
    let envelope = spec_envelope(p.op, stream);
    lemma_parse_raw_encode(envelope, Seq::empty());
    assert(spec_encode(envelope) + Seq::<u8>::empty() =~= spec_encode(envelope));
    lemma_parse_raw_encode(p, Seq::empty());
    assert(spec_encode(p) + Seq::<u8>::empty() =~= spec_encode(p));
}

} // verus!
