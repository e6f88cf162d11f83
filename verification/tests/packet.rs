use std::io::Write;

use bililive::packet::compression::deflate;
use bililive::packet::compression::inflate;
use bililive::packet::types::Operation;
use bililive::packet::types::Protocol;
use bililive::packet::Packet;
use bililive::IncompleteResult;
use bililive::Needed;
use bililive::ParseError;

fn notification(body: &str) -> Packet {
    Packet::new(Operation::Notification, Protocol::Json, body.as_bytes().to_vec())
}

fn brotli_stream(raw: &[u8]) -> Vec<u8> {
    let mut writer = brotli::CompressorWriter::new(Vec::new(), 4096, 5, 22);
    writer.write_all(raw).unwrap();
    writer.into_inner()
}

fn frame(protocol: u16, op: u32, seq: u32, body: &[u8]) -> Vec<u8> {
    let mut bytes = Vec::new();
    bytes.extend_from_slice(&(16 + body.len() as u32).to_be_bytes());
    bytes.extend_from_slice(&16u16.to_be_bytes());
    bytes.extend_from_slice(&protocol.to_be_bytes());
    bytes.extend_from_slice(&op.to_be_bytes());
    bytes.extend_from_slice(&seq.to_be_bytes());
    bytes.extend_from_slice(body);
    bytes
}

#[test]
fn encode_heartbeat() {
    let packet = Packet::new(Operation::HeartBeat, Protocol::Heartbeat, Vec::new());
    assert_eq!(
        packet.encode(),
        vec![
            0x00, 0x00, 0x00, 0x10, 0x00, 0x10, 0x00, 0x01, 0x00, 0x00, 0x00, 0x02, 0x00, 0x00,
            0x00, 0x01
        ]
    );
}

#[test]
fn parse_notification() {
    let input = [
        0x00, 0x00, 0x00, 0x17, 0x00, 0x10, 0x00, 0x00, 0x00, 0x00, 0x00, 0x05, 0x00, 0x00, 0x00,
        0x01, 0x7B, 0x22, 0x61, 0x22, 0x3A, 0x31, 0x7D,
    ];
    match Packet::parse(&input) {
        IncompleteResult::Complete((rest, packet)) => {
            assert!(rest.is_empty());
            assert_eq!(packet.op(), Operation::Notification);
            assert_eq!(packet.proto(), Protocol::Json);
            assert_eq!(packet.bytes(), b"{\"a\":1}");
            assert_eq!(packet.seq_id(), 1);
            assert_eq!(packet.packet_length(), 23);
            assert_eq!(packet.header_length(), 16);
        }
        other => panic!("unexpected result: {:?}", other),
    }
}

#[test]
fn parse_notification_with_declared_length_short_of_the_body() {
    // The length field says 0x14: the frame ends after four bytes of body,
    // and the three bytes after it are left for the next frame.
    let input = [
        0x00, 0x00, 0x00, 0x14, 0x00, 0x10, 0x00, 0x00, 0x00, 0x00, 0x00, 0x05, 0x00, 0x00, 0x00,
        0x01, 0x7B, 0x22, 0x61, 0x22, 0x3A, 0x31, 0x7D,
    ];
    match Packet::parse(&input) {
        IncompleteResult::Complete((rest, packet)) => {
            assert_eq!(rest, &[0x3A, 0x31, 0x7D]);
            assert_eq!(packet.op(), Operation::Notification);
            assert_eq!(packet.proto(), Protocol::Json);
            assert_eq!(packet.bytes(), b"{\"a\"");
        }
        other => panic!("unexpected result: {:?}", other),
    }
}

#[test]
fn parse_incomplete() {
    let input = [0x00, 0x00, 0x00, 0x20, 0x00, 0x10];
    match Packet::parse(&input) {
        IncompleteResult::Incomplete(Needed::Size(n)) => {
            assert!(n >= 26);
            assert_eq!(n, 26);
        }
        other => panic!("unexpected result: {:?}", other),
    }
}

#[test]
fn parse_incomplete_before_the_length_is_known() {
    assert_eq!(
        Packet::parse(&[]),
        IncompleteResult::Incomplete(Needed::Size(16))
    );
    assert_eq!(
        Packet::parse(&[0x00, 0x00, 0x01]),
        IncompleteResult::Incomplete(Needed::Size(13))
    );
}

#[test]
fn parse_incomplete_header_of_a_short_length() {
    // The length field says 5, which is less than a header: the header is
    // still awaited in full.
    assert_eq!(
        Packet::parse_raw(&[0x00, 0x00, 0x00, 0x05, 0x00]),
        IncompleteResult::Incomplete(Needed::Size(11))
    );
}

#[test]
fn parse_incomplete_body() {
    let mut bytes = notification("{\"a\":1}").encode();
    bytes.truncate(20);
    assert_eq!(
        Packet::parse(&bytes),
        IncompleteResult::Incomplete(Needed::Size(3))
    );
}

#[test]
fn parse_unknown_protocol() {
    let input = [
        0x00, 0x00, 0x00, 0x10, 0x00, 0x10, 0x00, 0x04, 0x00, 0x00, 0x00, 0x05, 0x00, 0x00, 0x00,
        0x01,
    ];
    assert_eq!(
        Packet::parse(&input),
        IncompleteResult::Error(ParseError::UnknownProtocol)
    );
}

#[test]
fn parse_total_length_under_header_length() {
    let input = [
        0x00, 0x00, 0x00, 0x0A, 0x00, 0x10, 0x00, 0x00, 0x00, 0x00, 0x00, 0x05, 0x00, 0x00, 0x00,
        0x01,
    ];
    assert_eq!(
        Packet::parse(&input),
        IncompleteResult::Incomplete(Needed::Unknown)
    );
}

#[test]
fn parse_wrong_header_length() {
    let mut input = notification("{}").encode();
    input[5] = 0x12;
    assert_eq!(
        Packet::parse(&input),
        IncompleteResult::Error(ParseError::PacketFormat)
    );
    input[5] = 0x08;
    assert_eq!(
        Packet::parse(&input),
        IncompleteResult::Error(ParseError::PacketFormat)
    );
}

#[test]
fn parse_leaves_what_follows() {
    let first = notification("{\"a\":1}");
    let second = Packet::new(Operation::HeartBeatResponse, Protocol::Heartbeat, vec![0, 0, 0, 9]);
    let mut wire = first.encode();
    wire.extend_from_slice(&second.encode());
    wire.push(0xAB);
    match Packet::parse(&wire) {
        IncompleteResult::Complete((rest, packet)) => {
            assert_eq!(packet, first);
            match Packet::parse(rest) {
                IncompleteResult::Complete((rest, packet)) => {
                    assert_eq!(packet, second);
                    assert_eq!(rest, &[0xAB]);
                }
                other => panic!("unexpected result: {:?}", other),
            }
        }
        other => panic!("unexpected result: {:?}", other),
    }
}

#[test]
fn round_trip_json_and_heartbeat() {
    let mut json = notification("{\"cmd\":\"DANMU_MSG\"}");
    json.set_seq_id(77);
    let mut beat = Packet::new(Operation::HeartBeatResponse, Protocol::Heartbeat, vec![0, 0, 1, 0]);
    beat.set_op(Operation::Unknown(0xDEAD_BEEF));
    for packet in [json, beat] {
        let wire = packet.encode();
        match Packet::parse(&wire) {
            IncompleteResult::Complete((rest, parsed)) => {
                assert!(rest.is_empty());
                assert_eq!(parsed, packet);
            }
            other => panic!("unexpected result: {:?}", other),
        }
    }
}

#[test]
fn unknown_operation_with_a_named_value_parses_as_the_named_one() {
    let mut packet = notification("{}");
    packet.set_op(Operation::Unknown(2));
    match Packet::parse(&packet.encode()) {
        IncompleteResult::Complete((_, parsed)) => assert_eq!(parsed.op(), Operation::HeartBeat),
        other => panic!("unexpected result: {:?}", other),
    }
}

#[test]
fn encoded_header_length_and_total_length() {
    for body in ["", "{}", "{\"a\":[1,2,3]}"] {
        let wire = notification(body).encode();
        assert_eq!(&wire[4..6], &[0x00, 0x10]);
        let total = u32::from_be_bytes([wire[0], wire[1], wire[2], wire[3]]);
        assert_eq!(total as usize, wire.len());
        assert_eq!(wire.len(), 16 + body.len());
    }
}

#[test]
fn encode_layout() {
    let mut packet = Packet::new(Operation::RoomEnter, Protocol::Json, b"hi".to_vec());
    packet.set_seq_id(0x0102_0304);
    assert_eq!(
        packet.encode(),
        vec![0, 0, 0, 18, 0, 16, 0, 0, 0, 0, 0, 7, 1, 2, 3, 4, b'h', b'i']
    );
    let big = Packet::new(Operation::Unknown(0x0A0B_0C0D), Protocol::Brotli, vec![0; 0x1_02F0]);
    let wire = big.encode();
    assert_eq!(&wire[..12], &[0x00, 0x01, 0x03, 0x00, 0, 16, 0, 3, 0x0A, 0x0B, 0x0C, 0x0D]);
}

#[test]
fn operation_from_is_total() {
    assert_eq!(Operation::from(0), Operation::HandShake);
    assert_eq!(Operation::from(2), Operation::HeartBeat);
    assert_eq!(Operation::from(3), Operation::HeartBeatResponse);
    assert_eq!(Operation::from(5), Operation::Notification);
    assert_eq!(Operation::from(7), Operation::RoomEnter);
    assert_eq!(Operation::from(8), Operation::RoomEnterResponse);
    for code in [1u32, 4, 6, 9, 1000, u32::MAX] {
        assert_eq!(Operation::from(code), Operation::Unknown(code));
    }
    for code in [0u32, 1, 2, 3, 4, 5, 6, 7, 8, 9, 77, u32::MAX] {
        assert_eq!(Operation::from(code).code(), code);
    }
}

#[test]
fn protocol_try_from_is_partial() {
    assert_eq!(Protocol::try_from(0), Ok(Protocol::Json));
    assert_eq!(Protocol::try_from(1), Ok(Protocol::Heartbeat));
    assert_eq!(Protocol::try_from(2), Ok(Protocol::Zlib));
    assert_eq!(Protocol::try_from(3), Ok(Protocol::Brotli));
    for tag in [4u16, 5, 255, 256, u16::MAX] {
        assert_eq!(Protocol::try_from(tag), Err(ParseError::UnknownProtocol));
    }
    for protocol in [Protocol::Json, Protocol::Heartbeat, Protocol::Zlib, Protocol::Brotli] {
        assert_eq!(Protocol::try_from(protocol.tag()), Ok(protocol));
    }
    assert!(!Protocol::Json.is_compressed());
    assert!(!Protocol::Heartbeat.is_compressed());
    assert!(Protocol::Zlib.is_compressed());
    assert!(Protocol::Brotli.is_compressed());
}

#[test]
fn new_and_setters() {
    let mut packet = Packet::new(Operation::Notification, Protocol::Json, b"abc".to_vec());
    assert_eq!(packet.seq_id(), 1);
    assert_eq!(packet.packet_length(), 19);
    assert_eq!(packet.header_length(), 16);
    packet.set_proto(Protocol::Heartbeat);
    packet.set_op(Operation::HeartBeat);
    packet.set_seq_id(9);
    packet.set_data(vec![1, 2, 3, 4, 5]);
    assert_eq!(packet.proto(), Protocol::Heartbeat);
    assert_eq!(packet.op(), Operation::HeartBeat);
    assert_eq!(packet.seq_id(), 9);
    assert_eq!(packet.bytes(), &[1, 2, 3, 4, 5]);
    assert_eq!(packet.packet_length(), 21);
    assert_eq!(packet.header_length(), 16);
    let copy = packet.clone();
    assert_eq!(copy, packet);
}

#[test]
fn int32_be_reads_four_bytes() {
    let of = |body: Vec<u8>| Packet::new(Operation::HeartBeatResponse, Protocol::Heartbeat, body).int32_be();
    assert_eq!(of(vec![0, 0, 0, 5]), Ok(5));
    assert_eq!(of(vec![0x12, 0x34, 0x56, 0x78]), Ok(0x1234_5678));
    assert_eq!(of(vec![0x7F, 0xFF, 0xFF, 0xFF]), Ok(i32::MAX));
    assert_eq!(of(vec![0x80, 0, 0, 0]), Ok(i32::MIN));
    assert_eq!(of(vec![0xFF, 0xFF, 0xFF, 0xFF]), Ok(-1));
    assert_eq!(of(vec![]), Err(ParseError::Int32BE));
    assert_eq!(of(vec![0, 0, 5]), Err(ParseError::Int32BE));
    assert_eq!(of(vec![0, 0, 0, 0, 5]), Err(ParseError::Int32BE));
}

#[test]
fn json_reads_the_body() {
    let value = notification("{\"a\":1,\"b\":[true,null]}").json().unwrap();
    assert_eq!(value["a"], 1);
    assert_eq!(value["b"][0], true);
    assert!(value["b"][1].is_null());
    assert_eq!(notification("{\"a\":").json(), Err(ParseError::Json));
    assert_eq!(notification("").json(), Err(ParseError::Json));
    assert_eq!(notification("{} trailing").json(), Err(ParseError::Json));
}

#[test]
fn compress_then_parse_gives_the_packet_back() {
    let mut packet = notification("{\"cmd\":\"DANMU_MSG\",\"info\":[1,2,3,4,5,6,7,8,9,10]}");
    packet.set_seq_id(42);
    let compressed = packet.clone().compress().unwrap();
    assert_eq!(compressed.proto(), Protocol::Zlib);
    assert_eq!(compressed.op(), Operation::Notification);
    assert_eq!(compressed.seq_id(), 1);
    assert_ne!(compressed.bytes(), &packet.encode()[..]);
    assert_eq!(compressed.bytes()[0], 0x78);
    assert_eq!(compressed.packet_length() as usize, 16 + compressed.bytes().len());
    match Packet::parse(&compressed.encode()) {
        IncompleteResult::Complete((rest, parsed)) => {
            assert!(rest.is_empty());
            assert_eq!(parsed, packet);
        }
        other => panic!("unexpected result: {:?}", other),
    }
}

#[test]
fn parse_raw_leaves_the_body_compressed() {
    let packet = notification("{\"a\":1}");
    let compressed = packet.clone().compress().unwrap();
    match Packet::parse_raw(&compressed.encode()) {
        IncompleteResult::Complete((rest, parsed)) => {
            assert!(rest.is_empty());
            assert_eq!(parsed, compressed);
        }
        other => panic!("unexpected result: {:?}", other),
    }
}

#[test]
fn parse_brotli_frame() {
    let inner = notification("{\"cmd\":\"brotli\"}");
    let wire = frame(3, 5, 1, &brotli_stream(&inner.encode()));
    match Packet::parse(&wire) {
        IncompleteResult::Complete((rest, parsed)) => {
            assert!(rest.is_empty());
            assert_eq!(parsed, inner);
        }
        other => panic!("unexpected result: {:?}", other),
    }
}

#[test]
fn parse_corrupt_streams() {
    let garbage = [0x01u8, 0x02, 0x03, 0x04, 0x05, 0x06, 0x07];
    assert_eq!(
        Packet::parse(&frame(2, 5, 1, &garbage)),
        IncompleteResult::Error(ParseError::Zlib)
    );
    assert_eq!(
        Packet::parse(&frame(3, 5, 1, &[0xFF, 0xFF, 0xFF, 0xFF, 0xFF, 0xFF])),
        IncompleteResult::Error(ParseError::Brotli)
    );
}

#[test]
fn parse_batch_that_holds_no_whole_frame() {
    let mut z = flate2::write::ZlibEncoder::new(Vec::new(), flate2::Compression::default());
    z.write_all(&[0x00, 0x00, 0x00, 0x20, 0x00, 0x10]).unwrap();
    let stream = z.finish().unwrap();
    assert_eq!(
        Packet::parse(&frame(2, 5, 1, &stream)),
        IncompleteResult::Error(ParseError::PacketFormat)
    );
    assert_eq!(
        Packet::parse_inflated(&[0x00, 0x00, 0x00, 0x20, 0x00, 0x10]),
        Err(ParseError::PacketFormat)
    );
    assert_eq!(
        Packet::parse_inflated(&frame(9, 5, 1, b"")),
        Err(ParseError::PacketFormat)
    );
    assert_eq!(
        Packet::parse_inflated(&notification("{}").encode()),
        Ok(notification("{}"))
    );
}

#[test]
fn envelope_wraps_a_stream() {
    let packet = Packet::envelope(Operation::Notification, vec![0x78, 0x9C, 0x03, 0x00]).unwrap();
    assert_eq!(packet.op(), Operation::Notification);
    assert_eq!(packet.proto(), Protocol::Zlib);
    assert_eq!(packet.seq_id(), 1);
    assert_eq!(packet.bytes(), &[0x78, 0x9C, 0x03, 0x00]);
    assert_eq!(packet.packet_length(), 20);
}

#[test]
fn deflate_then_inflate() {
    let raw = b"danmaku danmaku danmaku danmaku danmaku".to_vec();
    let stream = deflate(&raw).unwrap();
    assert_ne!(stream, raw);
    assert_eq!(inflate(Protocol::Zlib, &stream), Ok(raw.clone()));
    assert_eq!(inflate(Protocol::Brotli, &brotli_stream(&raw)), Ok(raw.clone()));
    assert_eq!(inflate(Protocol::Zlib, &raw), Err(ParseError::Zlib));
    assert_eq!(inflate(Protocol::Json, &stream), Err(ParseError::PacketFormat));
    assert_eq!(inflate(Protocol::Heartbeat, &stream), Err(ParseError::PacketFormat));
}
