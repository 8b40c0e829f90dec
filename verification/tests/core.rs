use mq_bridge::bytes::{find_bytes, trim_blank_bytes};
use mq_bridge::ids::{hex_tail, hex_text, parse_bridge_id, parse_header_id, strip_all_text};
use mq_bridge::ipc::{
    decode_frame, encode_frame, frame_length, is_disconnected, FrameRead, IoKind, ReadEvent,
    ReadNext, RecvStep, UnixIpcTransport, WindowsIpcTransport, MAX_FRAME_BYTES,
};
use mq_bridge::message::{CanonicalMessage, Metadata, SOURCE_PREFIX};
use mq_bridge::names::NameSet;
use mq_bridge::numbers::{decimal_text, parse_i64, parse_unsigned, signed_decimal_text};
use mq_bridge::text::{same_text_ignoring_case, text_contains, text_starts_with};
use mq_bridge::wire::{low_bytes, push_be, push_varint, read_be};

#[test]
fn frames_read_back() {
    let frame = encode_frame(b"hello");
    assert_eq!(frame, [&[0, 0, 0, 5][..], b"hello"].concat());
    match decode_frame(&[frame.as_slice(), b"next"].concat()) {
        FrameRead::Frame { data, used } => {
            assert_eq!(data, b"hello".to_vec());
            assert_eq!(used, 9);
        }
        other => panic!("unexpected {:?}", other),
    }
    assert!(matches!(decode_frame(&frame[..3]), FrameRead::More(_)));
    assert!(matches!(decode_frame(&frame[..6]), FrameRead::More(_)));
    assert!(matches!(decode_frame(&[0xff, 0xff, 0xff, 0xff]), FrameRead::Refused(_)));
    assert_eq!(frame_length(&[0, 0, 1, 0]).unwrap(), 256);
    let limit = (MAX_FRAME_BYTES as u32).to_be_bytes();
    assert_eq!(frame_length(&limit).unwrap(), MAX_FRAME_BYTES);
    assert!(frame_length(&(MAX_FRAME_BYTES as u32 + 1).to_be_bytes()).is_err());
}

#[test]
fn unix_transports_follow_their_connection() {
    let mut server = UnixIpcTransport::new_server("/tmp/s.sock", 8);
    assert!(matches!(server.recv_step(), RecvStep::Accept));
    server.on_accept();
    assert!(matches!(server.recv_step(), RecvStep::Read));
    match server.on_read(ReadEvent::Data(b"x".to_vec())) {
        ReadNext::Deliver(data) => assert_eq!(data, b"x".to_vec()),
        other => panic!("unexpected {:?}", other),
    }
    // A peer that went away makes room for the next one.
    let gone = ReadEvent::Failed { kind: IoKind::UnexpectedEof, message: "eof".to_string() };
    assert!(matches!(server.on_read(gone), ReadNext::Again));
    assert!(matches!(server.recv_step(), RecvStep::Accept));
    let broken = ReadEvent::Failed { kind: IoKind::Other, message: "disk".to_string() };
    assert!(matches!(server.on_read(broken), ReadNext::Fail(_)));

    let client = UnixIpcTransport::new_client("/tmp/s.sock", 8);
    assert_eq!(client.send_batch(b"hi").unwrap(), encode_frame(b"hi"));
    assert_eq!(client.file_to_remove(), None);
    assert_eq!(server.file_to_remove(), Some("/tmp/s.sock"));
    assert_eq!(server.capacity(), Some(8));
    assert_eq!(server.len(), 0);
    assert!(server.try_recv_batch().is_none());
    assert!(is_disconnected(IoKind::BrokenPipe));
    assert!(!is_disconnected(IoKind::Other));
}

#[test]
fn closed_unix_transports_refuse() {
    let mut client = UnixIpcTransport::new_client("/tmp/s.sock", 8);
    assert!(!client.is_closed());
    client.close();
    assert!(client.is_closed());
    assert!(client.check_send().is_err());
    assert!(client.send_batch(b"x").is_err());
    assert!(matches!(client.recv_step(), RecvStep::Fail(_)));
}

#[test]
fn windows_transports_follow_their_connection() {
    let mut server = WindowsIpcTransport::new_server("jobs", 4);
    assert!(server.pipe_name.contains("jobs"));
    assert!(server.wait_for_connection().unwrap());
    server.on_connect();
    assert!(matches!(server.recv_step(), RecvStep::Read));
    assert_eq!(server.capacity(), Some(4));
    assert!(!server.is_closed());
    server.close();
    assert!(server.is_closed());
    assert!(server.send_batch(b"x").is_err());
    let client = WindowsIpcTransport::new_client("jobs", 4);
    assert_eq!(client.send_batch(b"x").unwrap(), encode_frame(b"x"));
}

#[test]
fn numbers_read_and_write() {
    assert_eq!(decimal_text(0), "0");
    assert_eq!(decimal_text(u128::MAX), "340282366920938463463374607431768211455");
    assert_eq!(signed_decimal_text(i64::MIN), "-9223372036854775808");
    assert_eq!(parse_i64("-9223372036854775808"), Some(i64::MIN));
    assert_eq!(parse_i64("9223372036854775808"), None);
    assert_eq!(parse_i64("-"), None);
    assert_eq!(parse_unsigned("ff", 16, 255), Some(255));
    assert_eq!(parse_unsigned("100", 16, 255), None);
    assert_eq!(parse_unsigned("", 10, 255), None);
    assert_eq!(parse_unsigned("+7", 10, 255), Some(7));
}

#[test]
fn identifiers_read_and_write() {
    assert_eq!(hex_text(0xabc), "00000000000000000000000000000abc");
    assert_eq!(hex_tail(0xabc, 4), "0abc");
    assert_eq!(parse_bridge_id(&hex_text(u128::MAX)), Some(u128::MAX));
    assert_eq!(parse_header_id("0x0xff"), Some(255));
    assert_eq!(parse_header_id("zz"), None);
    assert_eq!(strip_all_text("0x0x1", "0x"), "1");
}

#[test]
fn bytes_of_numbers_read_back() {
    let mut out = vec![9];
    push_be(&mut out, 0x0102, 4);
    assert_eq!(out, vec![9, 0, 0, 1, 2]);
    assert_eq!(read_be(&out[1..]), 0x0102);
    assert_eq!(low_bytes(5)[11], 5);
    let mut out = Vec::new();
    push_varint(&mut out, 300);
    assert_eq!(out, vec![0xac, 0x02]);
}

#[test]
fn metadata_keeps_the_last_value() {
    let mut m = Metadata::new();
    m.put("a", "1");
    m.put("a", "2");
    m.put_default("a", "3");
    m.put_default("b", "4");
    m.put("mqb.src.x", "5");
    assert_eq!(m.get("a").map(String::as_str), Some("2"));
    assert_eq!(m.get("b").map(String::as_str), Some("4"));
    let plain = m.without_prefix(SOURCE_PREFIX);
    assert!(!plain.contains_key("mqb.src.x"));
    assert!(plain.contains_key("a"));
    assert_eq!(m.copy().entries, m.entries);
}

#[test]
fn messages_get_fresh_identifiers() {
    let a = CanonicalMessage::new(vec![], None);
    let b = CanonicalMessage::new(vec![], None);
    assert_ne!(a.message_id, b.message_id);
    for m in [a, b] {
        assert_eq!((m.message_id >> 76) & 0xf, 7);
        assert_eq!((m.message_id >> 62) & 3, 2);
    }
    assert_eq!(CanonicalMessage::new(vec![], Some(3)).copy().message_id, 3);
}

#[test]
fn texts_and_bytes() {
    assert!(same_text_ignoring_case("GZip", "gzip"));
    assert!(text_starts_with("Basic x", "Basic "));
    assert!(text_contains("text/event-stream; x", "text/event-stream"));
    assert!(!text_contains("abc", "d"));
    assert_eq!(find_bytes(b"a\n\nb", b"\n\n", 0), Some(1));
    assert_eq!(find_bytes(b"ab", b"\n", 0), None);
    assert_eq!(trim_blank_bytes(b" \t a \r\n"), b"a");
}

#[test]
fn names_are_kept_once() {
    let mut names = NameSet::new();
    assert!(names.is_empty());
    assert!(names.insert("a"));
    assert!(!names.insert("a"));
    assert!(names.contains("a"));
    assert!(names.remove("a"));
    assert!(!names.remove("a"));
    assert!(names.is_empty());
}
