use bp3d_tracing::codec::{write_u16_le, write_u32_le, write_u64_le, write_i64_le, read_u16_le,
    read_u32_le, read_u64_le, read_i64_le};
use bp3d_tracing::hello::{Hello, MatchResult, HELLO_SIZE};
use bp3d_tracing::level::Level;
use bp3d_tracing::wire::{ClientConfig, ClientRecord, Duration, Metadata, PayloadRef, SpanAlloc,
    SpanDataset, SpanFollows, SpanParent, SpanUpdate, ServerConfig, frame_message};

#[test]
fn le_integers_roundtrip() {
    let mut b = Vec::new();
    write_u16_le(&mut b, 0xBEEF);
    write_u32_le(&mut b, 0xDEADBEEF);
    write_u64_le(&mut b, 0x0123456789ABCDEF);
    write_i64_le(&mut b, -123456789);
    assert_eq!(b[0], 0xEF);
    assert_eq!(b[1], 0xBE);
    assert_eq!(read_u16_le(&b, 0), 0xBEEF);
    assert_eq!(read_u32_le(&b, 2), 0xDEADBEEF);
    assert_eq!(read_u64_le(&b, 6), 0x0123456789ABCDEF);
    assert_eq!(read_i64_le(&b, 14), -123456789);
}

#[test]
fn hello_roundtrip_without_pre_release() {
    let h = Hello::new(3, None);
    let bytes = h.to_bytes();
    assert_eq!(bytes.len(), HELLO_SIZE);
    assert_eq!(&bytes[0..8], b"BP3DPROF");
    assert_eq!(bytes[8], 3);
    assert!(bytes[16..40].iter().all(|&b| b == 0));
    let back = Hello::from_bytes(&bytes);
    assert_eq!(back.version.major, 3);
    assert!(back.version.pre_release.is_none());
}

#[test]
fn hello_roundtrip_with_pre_release() {
    let mut tag = vec![0u8; 24];
    tag[0] = b'r';
    tag[1] = b'c';
    tag[2] = b'1';
    let h = Hello::new(7, Some(tag.clone()));
    let bytes = h.to_bytes();
    let back = Hello::from_bytes(&bytes);
    assert_eq!(back.version.major, 7);
    assert_eq!(back.version.pre_release, Some(tag));
}

#[test]
fn handshake_same_major_accepted() {
    let server = Hello::new(3, None);
    let client = Hello::new(3, None);
    assert_eq!(server.matches(&client), MatchResult::Accepted);
}

#[test]
fn handshake_major_mismatch_refused() {
    let server = Hello::new(3, None);
    let client = Hello::new(2, None);
    assert_eq!(server.matches(&client), MatchResult::VersionMismatch);
}

#[test]
fn handshake_signature_mismatch_refused() {
    let server = Hello::new(3, None);
    let mut bytes = Hello::new(3, None).to_bytes();
    bytes[0] = b'X';
    let client = Hello::from_bytes(&bytes);
    assert_eq!(server.matches(&client), MatchResult::SignatureMismatch);
}

#[test]
fn span_parent_roundtrip() {
    let m = SpanParent { id: 9, parent_node: 0 };
    let mut b = Vec::new();
    m.encode(&mut b);
    assert_eq!(b.len(), 8);
    let (back, end) = SpanParent::decode(&b, 0).unwrap();
    assert_eq!(end, 8);
    assert_eq!(back, m);
}

#[test]
fn span_follows_encodes() {
    let m = SpanFollows { id: 4, follows: 2 };
    let mut b = Vec::new();
    m.encode(&mut b);
    assert_eq!(b, vec![4, 0, 0, 0, 2, 0, 0, 0]);
}

#[test]
fn span_update_roundtrip() {
    let m = SpanUpdate {
        id: 12,
        run_count: 34,
        average_time: Duration { seconds: 1, nano_seconds: 500_000_000 },
        min_time: Duration { seconds: 0, nano_seconds: 100 },
        max_time: Duration { seconds: 2, nano_seconds: 0 },
    };
    let mut b = Vec::new();
    m.encode(&mut b);
    assert_eq!(b.len(), 32);
    let (back, end) = SpanUpdate::decode(&b, 0).unwrap();
    assert_eq!(end, 32);
    assert_eq!(back, m);
}

#[test]
fn span_dataset_header_encodes() {
    let m = SpanDataset { id: 1, run_count: 2 };
    let mut b = Vec::new();
    m.encode(&mut b);
    assert_eq!(b, vec![1, 0, 0, 0, 2, 0, 0, 0]);
}

#[test]
fn client_record_roundtrip() {
    let m = ClientRecord { max_rows: 77, enable: true };
    let mut b = Vec::new();
    m.encode(&mut b);
    assert_eq!(b, vec![77, 0, 0, 0, 1]);
    let (back, end) = ClientRecord::decode(&b, 0).unwrap();
    assert_eq!(end, 5);
    assert_eq!(back, m);
}

#[test]
fn client_config_roundtrip_with_level() {
    let m = ClientConfig {
        max_average_points: 1000,
        max_level: Some(Level::Info),
        record: ClientRecord { max_rows: 5, enable: false },
        period: 250,
    };
    let mut b = Vec::new();
    m.encode(&mut b);
    let (back, end) = ClientConfig::decode(&b, 0).unwrap();
    assert_eq!(end, b.len());
    assert_eq!(back, m);
}

#[test]
fn client_config_roundtrip_without_level() {
    let m = ClientConfig {
        max_average_points: 4,
        max_level: None,
        record: ClientRecord { max_rows: 0, enable: true },
        period: 0,
    };
    let mut b = Vec::new();
    m.encode(&mut b);
    let (back, end) = ClientConfig::decode(&b, 0).unwrap();
    assert_eq!(end, b.len());
    assert_eq!(back, m);
}

#[test]
fn server_config_roundtrip() {
    let m = ServerConfig { max_rows: 1_000_000, min_period: 200 };
    let mut b = Vec::new();
    m.encode(&mut b);
    assert_eq!(b.len(), 6);
    let (back, end) = ServerConfig::decode(&b, 0).unwrap();
    assert_eq!(end, 6);
    assert_eq!(back, m);
}

#[test]
fn payload_ref_roundtrip() {
    let r = PayloadRef { length: 10, offset: 300 };
    let mut b = Vec::new();
    r.encode(&mut b);
    assert_eq!(b, vec![10, 0, 44, 1]);
}

#[test]
fn frame_with_payload_has_tag_and_length() {
    let header = vec![1, 2, 3];
    let payload = vec![9, 9];
    let frame = frame_message(5, &header, Some(&payload));
    assert_eq!(frame, vec![5, 1, 2, 3, 2, 0, 0, 0, 9, 9]);
}

#[test]
fn frame_without_payload_is_tag_and_header() {
    let header = vec![1, 2, 3];
    let frame = frame_message(7, &header, None);
    assert_eq!(frame, vec![7, 1, 2, 3]);
}

#[test]
fn level_bytes_roundtrip() {
    let levels = [Level::Trace, Level::Debug, Level::Info, Level::Warning, Level::Error];
    for (i, l) in levels.iter().enumerate() {
        assert_eq!(l.to_byte() as usize, i);
        assert_eq!(Level::from_byte(l.to_byte()), Some(*l));
    }
    assert_eq!(Level::from_byte(5), None);
}

#[test]
fn level_filter_inverts_severity() {
    // An error passes an info filter; a trace record does not.
    assert!(Level::Error.enabled_for(Some(Level::Info)));
    assert!(!Level::Trace.enabled_for(Some(Level::Info)));
    assert!(Level::Trace.enabled_for(None));
    assert!(Level::Info.enabled_for(Some(Level::Info)));
}

#[test]
fn metadata_roundtrip() {
    let m = Metadata {
        level: Level::Warning,
        line: Some(42),
        name: PayloadRef { length: 4, offset: 0 },
        target: PayloadRef { length: 3, offset: 4 },
        module: Some(PayloadRef { length: 10, offset: 7 }),
        file: None,
    };
    let mut b = Vec::new();
    m.encode(&mut b);
    let (back, end) = Metadata::decode(&b, 0).unwrap();
    assert_eq!(end, b.len());
    assert_eq!(back, m);
    let alloc = SpanAlloc { id: 9, metadata: m };
    let mut b2 = Vec::new();
    alloc.encode(&mut b2);
    let (back2, end2) = SpanAlloc::decode(&b2, 0).unwrap();
    assert_eq!(end2, b2.len());
    assert_eq!(back2, alloc);
}

#[test]
fn metadata_without_options_roundtrip() {
    let m = Metadata {
        level: Level::Trace,
        line: None,
        name: PayloadRef { length: 1, offset: 0 },
        target: PayloadRef { length: 1, offset: 1 },
        module: None,
        file: None,
    };
    let mut b = Vec::new();
    m.encode(&mut b);
    assert_eq!(b.len(), 12);
    let (back, end) = Metadata::decode(&b, 0).unwrap();
    assert_eq!(end, 12);
    assert_eq!(back, m);
}
