use std::io::Write;

use bililive::packet::types::Operation;
use bililive::packet::types::Protocol;
use bililive::packet::Packet;
use bililive::stream::codec::FrameDecoder;
use bililive::ParseError;

fn json_notification(body: &str) -> Packet {
    Packet::new(Operation::Notification, Protocol::Json, body.as_bytes().to_vec())
}

fn zlib(raw: &[u8]) -> Vec<u8> {
    let mut z = flate2::write::ZlibEncoder::new(Vec::new(), flate2::Compression::default());
    z.write_all(raw).unwrap();
    z.finish().unwrap()
}

fn brotli_of(raw: &[u8]) -> Vec<u8> {
    let mut writer = brotli::CompressorWriter::new(Vec::new(), 4096, 5, 22);
    writer.write_all(raw).unwrap();
    writer.into_inner()
}

fn batch_frame(protocol: Protocol, packets: &[Packet]) -> Vec<u8> {
    let mut raw = Vec::new();
    for packet in packets {
        raw.extend_from_slice(&packet.encode());
    }
    let stream = match protocol {
        Protocol::Brotli => brotli_of(&raw),
        _ => zlib(&raw),
    };
    let mut envelope = Packet::new(Operation::Notification, protocol, stream);
    envelope.set_seq_id(0);
    envelope.encode()
}

#[test]
fn zlib_batch_of_two() {
    let p1 = json_notification("{\"cmd\":\"ONE\"}");
    let p2 = json_notification("{\"cmd\":\"TWO\"}");
    let mut decoder = FrameDecoder::new();
    decoder.feed(&batch_frame(Protocol::Zlib, &[p1.clone(), p2.clone()]));
    assert_eq!(decoder.next(), Some(Ok(p1)));
    assert!(!decoder.is_idle());
    assert_eq!(decoder.next(), Some(Ok(p2)));
    assert!(decoder.is_idle());
    assert_eq!(decoder.next(), None);
}

#[test]
fn batch_fans_out_in_order() {
    let mut packets = Vec::new();
    for i in 0..5u32 {
        let mut packet = json_notification(&format!("{{\"n\":{}}}", i));
        packet.set_seq_id(100 + i);
        packet.set_op(Operation::from(i));
        packets.push(packet);
    }
    for protocol in [Protocol::Zlib, Protocol::Brotli] {
        let mut decoder = FrameDecoder::new();
        decoder.feed(&batch_frame(protocol, &packets));
        for packet in &packets {
            assert_eq!(decoder.next(), Some(Ok(packet.clone())));
        }
        assert_eq!(decoder.next(), None);
        assert!(decoder.is_idle());
    }
}

#[test]
fn compressed_packet_comes_back() {
    let mut packet = json_notification("{\"cmd\":\"DANMU_MSG\"}");
    packet.set_seq_id(7);
    let wire = packet.clone().compress().unwrap().encode();
    let mut decoder = FrameDecoder::new();
    decoder.feed(&wire);
    assert_eq!(decoder.next(), Some(Ok(packet)));
    assert_eq!(decoder.next(), None);
}

#[test]
fn plain_frames_come_out_in_arrival_order() {
    let p1 = json_notification("{\"a\":1}");
    let p2 = Packet::new(Operation::HeartBeatResponse, Protocol::Heartbeat, vec![0, 0, 0, 3]);
    let p3 = json_notification("{\"b\":2}");
    let mut decoder = FrameDecoder::new();
    let mut first = p1.encode();
    first.extend_from_slice(&p2.encode());
    decoder.feed(&first);
    decoder.feed(&p3.encode());
    assert_eq!(decoder.next(), Some(Ok(p1)));
    assert_eq!(decoder.next(), Some(Ok(p2)));
    assert_eq!(decoder.next(), Some(Ok(p3)));
    assert_eq!(decoder.next(), None);
}

#[test]
fn batch_comes_out_before_what_followed_it() {
    let p1 = json_notification("{\"in\":1}");
    let p2 = json_notification("{\"in\":2}");
    let after = json_notification("{\"after\":true}");
    let mut decoder = FrameDecoder::new();
    let mut wire = batch_frame(Protocol::Zlib, &[p1.clone(), p2.clone()]);
    wire.extend_from_slice(&after.encode());
    decoder.feed(&wire);
    assert_eq!(decoder.next(), Some(Ok(p1)));
    assert_eq!(decoder.next(), Some(Ok(p2)));
    assert_eq!(decoder.next(), Some(Ok(after)));
    assert_eq!(decoder.next(), None);
}

#[test]
fn partial_frame_is_buffered() {
    let packet = json_notification("{\"cmd\":\"SPLIT\"}");
    let wire = packet.encode();
    let mut decoder = FrameDecoder::new();
    assert_eq!(decoder.next(), None);
    decoder.feed(&wire[..3]);
    assert_eq!(decoder.next(), None);
    decoder.feed(&wire[3..20]);
    assert_eq!(decoder.next(), None);
    assert!(!decoder.is_idle());
    decoder.feed(&wire[20..]);
    assert_eq!(decoder.next(), Some(Ok(packet)));
    assert!(decoder.is_idle());
}

#[test]
fn malformed_frame_is_dropped_and_decoding_goes_on() {
    let mut bad = json_notification("{}").encode();
    bad[7] = 9;
    let mut decoder = FrameDecoder::new();
    decoder.feed(&bad);
    assert_eq!(decoder.next(), Some(Err(ParseError::UnknownProtocol)));
    assert!(decoder.is_idle());
    assert_eq!(decoder.next(), None);
    let good = json_notification("{\"ok\":1}");
    decoder.feed(&good.encode());
    assert_eq!(decoder.next(), Some(Ok(good)));
}

#[test]
fn corrupt_batch_gives_one_error() {
    let mut envelope = Packet::new(Operation::Notification, Protocol::Zlib, vec![1, 2, 3, 4, 5]);
    envelope.set_seq_id(3);
    let after = json_notification("{\"after\":1}");
    let mut wire = envelope.encode();
    wire.extend_from_slice(&after.encode());
    let mut decoder = FrameDecoder::new();
    decoder.feed(&wire);
    assert_eq!(decoder.next(), Some(Err(ParseError::Zlib)));
    assert_eq!(decoder.next(), Some(Ok(after)));
    assert_eq!(decoder.next(), None);

    let brotli = Packet::new(Operation::Notification, Protocol::Brotli, vec![0xFF; 9]);
    decoder.feed(&brotli.encode());
    assert_eq!(decoder.next(), Some(Err(ParseError::Brotli)));
    assert_eq!(decoder.next(), None);
}

#[test]
fn batch_with_a_broken_tail() {
    let p1 = json_notification("{\"good\":1}");
    let mut raw = p1.encode();
    raw.extend_from_slice(&[0x00, 0x00, 0x00, 0x40, 0x00, 0x10, 0x00]);
    let envelope = Packet::new(Operation::Notification, Protocol::Zlib, zlib(&raw));
    let mut decoder = FrameDecoder::new();
    decoder.feed(&envelope.encode());
    assert_eq!(decoder.next(), Some(Ok(p1)));
    assert_eq!(decoder.next(), Some(Err(ParseError::PacketFormat)));
    assert_eq!(decoder.next(), None);
    assert!(decoder.is_idle());
}

#[test]
fn empty_batch_is_malformed() {
    let envelope = Packet::new(Operation::Notification, Protocol::Zlib, zlib(&[]));
    let mut decoder = FrameDecoder::new();
    decoder.feed(&envelope.encode());
    assert_eq!(decoder.next(), Some(Err(ParseError::PacketFormat)));
    assert_eq!(decoder.next(), None);
}

#[test]
fn nested_envelope_comes_out_as_it_is() {
    let inner = json_notification("{\"deep\":1}").compress().unwrap();
    let mut decoder = FrameDecoder::new();
    decoder.feed(&batch_frame(Protocol::Zlib, &[inner.clone()]));
    assert_eq!(decoder.next(), Some(Ok(inner)));
    assert_eq!(decoder.next(), None);
}
