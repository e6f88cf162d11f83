//! The packet that subscribes a fresh connection to a room.

use vstd::prelude::*;
use vstd::string::StringSliceAdditionalSpecFns;

use crate::config::StreamConfig;
use crate::config::StreamConfigView;
use crate::errors::ParseError;
use crate::packet::json::json_quote;
use crate::packet::json::json_string;
use crate::packet::types::Operation;
use crate::packet::types::Protocol;
use crate::packet::Packet;
use crate::packet::PacketView;
use crate::packet::DEFAULT_SEQ_ID;
use crate::packet::HEADER_LENGTH;
use crate::text::ascii_bytes;
use crate::text::put_decimal;
use crate::text::spec_decimal;

verus! {

/// The protocol version that the client announces: 3 says that it reads
/// brotli batches as well as zlib ones.
pub const PROTOVER: u64 = 3;

/// The JSON object that joins a room, with `key` and `buvid` already written
/// as JSON string literals.
pub open spec fn spec_room_enter_body(uid: u64, room_id: u64, key: Seq<u8>, buvid: Seq<u8>) -> Seq<
    u8,
> {
    "{\"uid\":".spec_bytes() + ascii_bytes(spec_decimal(uid as nat)) + ",\"roomid\":".spec_bytes()
        + ascii_bytes(spec_decimal(room_id as nat)) + ",\"protover\":".spec_bytes() + ascii_bytes(
        spec_decimal(PROTOVER as nat),
    ) + ",\"platform\":\"web\",\"type\":2,\"key\":".spec_bytes() + key + ",\"buvid\":".spec_bytes()
        + buvid + "}".spec_bytes()
}

/// The room-enter packet of a configuration.
pub open spec fn spec_room_enter(c: StreamConfigView) -> PacketView {
    PacketView {
        op: Operation::RoomEnter,
        protocol: Protocol::Json,
        seq_id: DEFAULT_SEQ_ID,
        body: spec_room_enter_body(c.uid, c.room_id, json_string(c.token), json_string(c.buvid)),
    }
}

/// The room-enter packet for the given user and room, with the token and
/// the browser identifier already written as JSON string literals.
///
/// Fails with a format error exactly when the body is too long for a frame.
pub fn room_enter_with(uid: u64, room_id: u64, key: &[u8], buvid: &[u8]) -> (r: Result<
    Packet,
    ParseError,
>)
    ensures
        HEADER_LENGTH + spec_room_enter_body(uid, room_id, key@, buvid@).len() <= u32::MAX ==> r
            is Ok && r.unwrap()@ == (PacketView {
            op: Operation::RoomEnter,
            protocol: Protocol::Json,
            seq_id: DEFAULT_SEQ_ID,
            body: spec_room_enter_body(uid, room_id, key@, buvid@),
        }),
        HEADER_LENGTH + spec_room_enter_body(uid, room_id, key@, buvid@).len() > u32::MAX ==> r
            == Err::<Packet, ParseError>(ParseError::PacketFormat),
{
    let mut body: Vec<u8> = Vec::new();
    body.extend_from_slice("{\"uid\":".as_bytes());
    put_decimal(&mut body, uid);
    body.extend_from_slice(",\"roomid\":".as_bytes());
    put_decimal(&mut body, room_id);
    body.extend_from_slice(",\"protover\":".as_bytes());
    put_decimal(&mut body, PROTOVER);
    body.extend_from_slice(",\"platform\":\"web\",\"type\":2,\"key\":".as_bytes());
    body.extend_from_slice(key);
    body.extend_from_slice(",\"buvid\":".as_bytes());
    body.extend_from_slice(buvid);
    body.extend_from_slice("}".as_bytes());
    assert(body@ =~= spec_room_enter_body(uid, room_id, key@, buvid@));
    if body.len() > 0xffff_ffef {
        Err(ParseError::PacketFormat)
    } else {
        Ok(Packet::new(Operation::RoomEnter, Protocol::Json, body))
    }
}

/// The packet that joins the room of `config`: a JSON object with the user,
/// the room, the protocol version, the platform `web`, the type 2, the
/// subscription token as `key`, and the browser identifier.
///
/// Fails with a format error exactly when the body is too long for a frame.
pub fn room_enter(config: &StreamConfig) -> (r: Result<Packet, ParseError>)
    ensures
        HEADER_LENGTH + spec_room_enter(config@).body.len() <= u32::MAX ==> r is Ok
            && r.unwrap()@ == spec_room_enter(config@) && r.unwrap()@.framable(),
        HEADER_LENGTH + spec_room_enter(config@).body.len() > u32::MAX ==> r == Err::<
            Packet,
            ParseError,
        >(ParseError::PacketFormat),
{
    let key = match json_quote(config.token()) {
        Ok(key) => key,
        Err(_) => {
            return Err(ParseError::Json);
        },
    };
    let buvid = match json_quote(config.buvid()) {
        Ok(buvid) => buvid,
        Err(_) => {
            return Err(ParseError::Json);
        },
    };
    room_enter_with(config.uid(), config.room_id(), key.as_slice(), buvid.as_slice())
}

} // verus!
