use dlt2log::bytes::DecodeError;
use dlt2log::extended::parse_v2_message;
use dlt2log::legacy::{
    join_args, legacy_outcome, level_label, parse_v1_message, LegacyDecode, LegacyHeader,
    LegacyMessage, LegacyPayload,
};
use dlt2log::payload::clean_payload;
use dlt2log::record::LogRecord;
use dlt2log::scan::{read_v1v2_message, Frame, Scanner, Step};
use dlt2log::storage::{detect_storage_header, read_storage_header};
use dlt2log::timestamp::{anchor, clamp, format_timestamp, Timestamp};

fn storage_header(sec: u32, sub: u32) -> Vec<u8> {
    let mut v = b"DLT\x01".to_vec();
    v.extend_from_slice(&sec.to_le_bytes());
    v.extend_from_slice(&sub.to_le_bytes());
    v.extend_from_slice(b"ECU\0");
    v
}

/// An extended frame with CNTI 0 (info and time blocks), an ECU id,
/// application and context ids, and the given payload.
fn extended_frame(rel: u64, payload: &[u8]) -> Vec<u8> {
    let total = 7 + 2 + 9 + 4 + 5 + 5 + payload.len();
    let mut v = vec![0x4c, 0, 0, 0, 7];
    v.extend_from_slice(&(total as u16).to_be_bytes());
    v.extend_from_slice(&[0, 0]);
    v.extend_from_slice(&rel.to_le_bytes());
    v.push(0);
    v.push(3);
    v.extend_from_slice(b"ECU");
    v.push(4);
    v.extend_from_slice(b"APP1");
    v.push(4);
    v.extend_from_slice(b"CTX1");
    v.extend_from_slice(payload);
    v
}

fn record(ts: Timestamp) -> LogRecord {
    LogRecord {
        timestamp: ts,
        app_id: "A".to_string(),
        ctx_id: "C".to_string(),
        level: "INFO".to_string(),
        payload: "p".to_string(),
    }
}

fn hello_message() -> LegacyMessage {
    LegacyMessage {
        timestamp: None,
        header: Some(LegacyHeader {
            app_id: "APP1".to_string(),
            ctx_id: "CTX1".to_string(),
            message_type: "Log(Info)".to_string(),
        }),
        payload: LegacyPayload::Verbose(vec!["hello".to_string()]),
    }
}

#[test]
fn clamp_boundary() {
    assert_eq!(clamp(9_999_999_999_999_999), 9_999_999_999_999_999);
    assert_eq!(clamp(20_000_000_000_000_000), 2_000_000_000_000_000);
    assert_eq!(clamp(u64::MAX), 1_844_674_407_370_955);
    assert_eq!(clamp(0), 0);
}

#[test]
fn clamp_twice_is_clamp_once() {
    for x in [0u64, 12, 10_000_000_000_000_000, 99_999_999_999_999_999, u64::MAX] {
        assert_eq!(clamp(clamp(x)), clamp(x));
    }
}

#[test]
fn sanitizer_run_rule() {
    assert_eq!(clean_payload(b"\x01AB\x02C\x03DEF\x04"), "AB DEF");
}

#[test]
fn sanitizer_edges() {
    assert_eq!(clean_payload(b""), "");
    assert_eq!(clean_payload(b"A"), "");
    assert_eq!(clean_payload(b"hello world"), "hello world");
    assert_eq!(clean_payload(b"ab\x00\x7fcd\x1f~ "), "ab cd ~ ");
}

#[test]
fn format_is_sixteen_digits() {
    assert_eq!(format_timestamp(0), "0000000000000000");
    assert_eq!(format_timestamp(5_030_000), "0000000005030000");
    assert_eq!(format_timestamp(9_999_999_999_999_999), "9999999999999999");
}

#[test]
fn anchoring_relative_value() {
    assert_eq!(anchor(30_000, 5_000_000), 5_030_000);
    let line = record(Timestamp::RelativeCandidate(30_000)).render(5_000_000);
    assert_eq!(line, "[0000000005030000][A C][INFO] p");
}

#[test]
fn anchoring_needs_a_base() {
    assert_eq!(anchor(30_000, 0), 30_000);
    assert_eq!(anchor(999_999_999_999, 1), 1_000_000_000_000);
}

#[test]
fn anchoring_not_triggered_above_limit() {
    for base in [0u64, 1, 5_000_000, u64::MAX] {
        assert_eq!(anchor(2_000_000_000_000_000, base), 2_000_000_000_000_000);
    }
    let line = record(Timestamp::FromStorageHeader(2_000_000_000_000_000)).render(5_000_000);
    assert_eq!(line, "[2000000000000000][A C][INFO] p");
}

#[test]
fn anchoring_sum_is_clamped() {
    assert_eq!(anchor(1, u64::MAX), 1_844_674_407_370_955);
}

#[test]
fn storage_header_detection() {
    assert!(detect_storage_header(b"DLT\x01rest"));
    assert!(!detect_storage_header(b"DLT"));
    assert!(!detect_storage_header(b"DLT\x02"));
}

#[test]
fn storage_header_reading() {
    let h = storage_header(1, 500_000);
    assert_eq!(read_storage_header(&h, 0, true), Ok((1_500_000, 16)));
    assert_eq!(read_storage_header(&h, 0, false), Ok((0, 0)));
    assert_eq!(read_storage_header(b"XXXXmore", 0, true), Ok((0, 4)));
    assert_eq!(read_storage_header(b"DL", 0, true), Ok((0, 2)));
    assert_eq!(read_storage_header(&h[..10], 0, true), Err(DecodeError::Truncated));
    let big = storage_header(u32::MAX, u32::MAX);
    assert_eq!(read_storage_header(&big, 0, true), Ok((4_294_971_589_967_295, 16)));
}

#[test]
fn empty_input_gives_nothing() {
    let input: Vec<u8> = Vec::new();
    let mut sc = Scanner::new(&input, 1_000);
    assert!(matches!(sc.next(&input), Step::Done));
    assert_eq!(sc.count, 0);
}

#[test]
fn legacy_frame_with_storage_header() {
    let mut input = storage_header(1, 500_000);
    let frame = [0x35u8, 0x00, 0x00, 0x08, 1, 2, 3, 4];
    input.extend_from_slice(&frame);
    let mut sc = Scanner::new(&input, 0);
    assert!(sc.has_storage_header);
    match sc.next(&input) {
        Step::Decode(bytes) => assert_eq!(bytes, frame.to_vec()),
        _ => panic!("expected a legacy frame"),
    }
    let decoded = LegacyDecode::Decoded(hello_message());
    match sc.resume(&input, &decoded) {
        Step::Line(line) => assert_eq!(line, "[0000000001500000][APP1 CTX1][INFO] hello"),
        _ => panic!("expected a line"),
    }
    assert_eq!(sc.count, 1);
    assert!(matches!(sc.next(&input), Step::Done));
}

#[test]
fn extended_frame_without_payload() {
    // CNTI 3: neither block; no ECU, id or session bits; length covers the header.
    // The marker byte was read already; the rest of the fixed header follows.
    let input = [0u8, 0, 0, 0, 0x00, 0x07];
    let (rec, next) = parse_v2_message(&input, 0, 0x03, 0).unwrap();
    assert_eq!(next, 6);
    assert_eq!(rec.render(0), "[0000000000000000][---- ----][INFO] <No Payload>");
}

#[test]
fn extended_frame_info_block_only() {
    let input = [0u8, 0, 0, 0, 0x00, 0x09, 0xaa, 0xbb];
    let (rec, next) = parse_v2_message(&input, 0, 0x02, 0).unwrap();
    assert_eq!(next, 8);
    assert_eq!(rec.render(0), "[0000000000000000][---- ----][INFO] <No Payload>");
}

#[test]
fn unknown_marker_is_fatal() {
    let input = [0x00u8, 1, 2, 3];
    let mut sc = Scanner::new(&input, 0);
    assert_eq!(
        match sc.next(&input) {
            Step::Failed(e) => e,
            _ => panic!("expected a failure"),
        },
        DecodeError::UnknownVersion(0)
    );
    assert_eq!(sc.count, 0);
}

#[test]
fn unknown_marker_after_a_frame() {
    let mut input = extended_frame(30_000, b"\x01hi there\x00x");
    input.push(0x7e);
    let mut sc = Scanner::new(&input, 5_000_000);
    match sc.next(&input) {
        Step::Line(line) => assert_eq!(line, "[0000000005030000][APP1 CTX1][INFO] hi there"),
        _ => panic!("expected a line"),
    }
    assert!(matches!(sc.next(&input), Step::Failed(DecodeError::UnknownVersion(0x7e))));
    assert_eq!(sc.count, 1);
}

#[test]
fn extended_frame_time_is_clamped() {
    let input = extended_frame(20_000_000_000_000_000, b"");
    let mut sc = Scanner::new(&input, 5_000_000);
    match sc.next(&input) {
        Step::Line(line) => assert_eq!(line, "[2000000000000000][APP1 CTX1][INFO] <No Payload>"),
        _ => panic!("expected a line"),
    }
}

#[test]
fn extended_frame_truncated() {
    let input = extended_frame(1, b"payload");
    let cut = &input[..input.len() - 1];
    assert!(matches!(read_v1v2_message(cut, 0, false), Frame::Failed(DecodeError::Truncated)));
    assert!(matches!(
        read_v1v2_message(&input[..10], 0, false),
        Frame::Failed(DecodeError::Truncated)
    ));
}

#[test]
fn extended_frame_length_too_small() {
    let input = [0x4cu8, 0, 0, 0, 0, 0x00, 0x05, 0, 0, 0, 0, 0, 0, 0, 0, 0, 0, 0, 0, 0, 1, b'E', 0, 0];
    assert!(matches!(
        read_v1v2_message(&input, 0, false),
        Frame::Failed(DecodeError::MalformedLength)
    ));
}

#[test]
fn extended_ids_are_decoded_lossily() {
    // CNTI 3 with the id bit: one invalid UTF-8 byte as application id.
    let input = [0u8, 0, 0, 0, 0x00, 0x0c, 1, 0xff, 2, b'C', b'X', 0, 0];
    let (rec, next) = parse_v2_message(&input, 0, 0x0b, 0).unwrap();
    assert_eq!(next, 11);
    assert_eq!(rec.app_id, "\u{FFFD}");
    assert_eq!(rec.ctx_id, "CX");
    assert_eq!(rec.payload, "<No Payload>");
}

#[test]
fn extended_storage_time_wins() {
    let mut input = storage_header(2, 5);
    input.extend_from_slice(&extended_frame(30_000, b"abc"));
    let mut sc = Scanner::new(&input, 0);
    match sc.next(&input) {
        Step::Line(line) => assert_eq!(line, "[0000000002000005][APP1 CTX1][INFO] abc"),
        _ => panic!("expected a line"),
    }
}

#[test]
fn legacy_frame_cut_out() {
    let input = [0x00u8, 0x00, 0x06, 9, 8, 7];
    assert_eq!(parse_v1_message(&input, 0, 0x35), Ok(Some((vec![0x35, 0, 0, 6, 9, 8], 5))));
    assert_eq!(parse_v1_message(&input, 0, 0x35).unwrap().unwrap().1, 5);
    assert_eq!(parse_v1_message(&[0u8, 0, 3], 0, 0x35), Ok(None));
    assert_eq!(parse_v1_message(&[0u8, 0, 40, 1], 0, 0x35), Err(DecodeError::Truncated));
    assert_eq!(parse_v1_message(&[0u8, 0], 0, 0x35), Err(DecodeError::Truncated));
}

#[test]
fn legacy_short_length_ends_scan() {
    let input = [0x35u8, 0, 0, 2, 0x4c];
    let mut sc = Scanner::new(&input, 0);
    assert!(matches!(sc.next(&input), Step::Done));
}

#[test]
fn legacy_outcomes() {
    assert!(matches!(legacy_outcome(&LegacyDecode::Invalid, 0), Ok(None)));
    assert!(matches!(
        legacy_outcome(&LegacyDecode::Rejected, 0),
        Err(DecodeError::LegacyRejected)
    ));
    let mut m = hello_message();
    m.timestamp = Some(300);
    m.header = None;
    m.payload = LegacyPayload::NonVerbose("NonVerbose(..)".to_string());
    let rec = legacy_outcome(&LegacyDecode::Decoded(m), 0).unwrap().unwrap();
    assert_eq!(rec.timestamp, Timestamp::RelativeCandidate(30_000));
    assert_eq!(rec.render(5_000_000), "[0000000005030000][---- ----][UNKNOWN] NonVerbose(..)");
}

#[test]
fn legacy_rejected_stops_scan() {
    let input = [0x35u8, 0, 0, 4];
    let mut sc = Scanner::new(&input, 0);
    assert!(matches!(sc.next(&input), Step::Decode(_)));
    assert!(matches!(
        sc.resume(&input, &LegacyDecode::Rejected),
        Step::Failed(DecodeError::LegacyRejected)
    ));
    assert_eq!(sc.count, 0);
}

#[test]
fn level_labels() {
    assert_eq!(level_label(&"Log(Info)".to_string()), "INFO");
    assert_eq!(level_label(&"Log(Warn)".to_string()), "WARN");
    assert_eq!(level_label(&"Control(Request)".to_string()), "CONTROL(REQUEST");
    assert_eq!(level_label(&"Unknown((1, 2))".to_string()), "UNKNOWN((1, 2");
    assert_eq!(level_label(&"Log(Invalid(9))".to_string()), "INVALID(9");
}

#[test]
fn argument_join() {
    assert_eq!(join_args(&vec![]), "");
    assert_eq!(join_args(&vec!["a".to_string()]), "a");
    assert_eq!(join_args(&vec!["a".to_string(), "U32(5)".to_string(), "b".to_string()]), "a U32(5) b");
}
