use bp3d_tracing::duration::Elapsed;
use bp3d_tracing::hello::{Hello, MatchResult};
use bp3d_tracing::level::Level;
use bp3d_tracing::log_msg::{EventLog, SpanLog};
use bp3d_tracing::sink::{CallSiteInfo, Span, SpanControl};
use bp3d_tracing::store::SpanStore;
use bp3d_tracing::wire::{ClientConfig, ClientRecord, TYPE_SPAN_ALLOC, TYPE_SPAN_PARENT,
    TYPE_SPAN_EVENT, TYPE_SPAN_UPDATE, TYPE_SPAN_DATASET, TYPE_SERVER_CONFIG};
use bp3d_tracing::worker::{encode_span_alloc, encode_span_event, encode_server_config,
    handle_span_command, handle_span_log, handle_client_record, check_client_hello};
use bp3d_tracing::SpanId;

fn store_with(max_rows: u32, enable: bool) -> SpanStore {
    SpanStore::new(
        1_000_000,
        200,
        &ClientConfig {
            max_average_points: 1000,
            max_level: None,
            record: ClientRecord { max_rows, enable },
            period: 200,
        },
    )
}

fn info(name: &[u8]) -> CallSiteInfo {
    CallSiteInfo {
        level: Level::Debug,
        line: None,
        name: name.to_vec(),
        target: b"app".to_vec(),
        module: Some(b"app::inner".to_vec()),
        file: None,
    }
}

#[test]
fn span_alloc_frame_carries_strings_in_payload() {
    let frame = encode_span_alloc(1, &info(b"work"));
    assert_eq!(frame[0], TYPE_SPAN_ALLOC);
    // Header: id, then metadata (level, line?, name ref, target ref,
    // module ref?, file ref?) = 4 + 1 + 1 + 4 + 4 + 5 + 1 = 20 bytes.
    assert_eq!(&frame[1..5], &[1, 0, 0, 0]);
    assert_eq!(frame[5], 1, "debug level byte");
    assert_eq!(frame[6], 0, "no line number");
    // name ref: length 4, offset 0.
    assert_eq!(&frame[7..11], &[4, 0, 0, 0]);
    // target ref: length 3, offset 4.
    assert_eq!(&frame[11..15], &[3, 0, 4, 0]);
    // module present: tag 1, length 10, offset 7.
    assert_eq!(&frame[15..20], &[1, 10, 0, 7, 0]);
    // file absent.
    assert_eq!(frame[20], 0);
    // Payload length, then the strings back to back.
    assert_eq!(&frame[21..25], &[17, 0, 0, 0]);
    assert_eq!(&frame[25..42], b"workappapp::inner");
    assert_eq!(frame.len(), 42);
}

#[test]
fn event_frame_wraps_record_bytes() {
    let event = EventLog::new(Some(2), 1700000000, Level::Error, &b"m".to_vec(), &b"t".to_vec());
    let frame = encode_span_event(&event);
    assert_eq!(frame[0], TYPE_SPAN_EVENT);
    assert_eq!(&frame[1..5], &[2, 0, 0, 0]);
    assert_eq!(frame[13], 4, "error level byte");
    // Message ref: the whole payload.
    let payload_len = frame[18] as usize;
    assert_eq!(frame[14] as usize, payload_len);
    // Payload: field count 0, then "t\0m\0".
    assert_eq!(&frame[22..], &[0, b't', 0, b'm', 0]);
}

#[test]
fn server_config_frame() {
    let frame = encode_server_config(1000, 200);
    assert_eq!(frame, vec![TYPE_SERVER_CONFIG, 232, 3, 0, 0, 200, 0]);
}

#[test]
fn alloc_command_registers_and_frames() {
    let mut store = store_with(10, true);
    let id = SpanId::from_parts(1, 0);
    let cmd = Span { id, ty: SpanControl::Alloc { info: info(b"work") } };
    let frame = handle_span_command(&mut store, &cmd, 0);
    assert_eq!(frame[0], TYPE_SPAN_ALLOC);
    // The node now accepts runs.
    let mut log = SpanLog::new(1);
    log.set_duration(&Elapsed::new(0, 5_000_000));
    assert!(handle_span_log(&mut store, log, 10_000).is_some());
}

#[test]
fn update_parent_command_frames_zero_for_root() {
    let mut store = store_with(10, false);
    let id = SpanId::from_parts(3, 0);
    let cmd = Span { id, ty: SpanControl::UpdateParent { parent: None } };
    let frame = handle_span_command(&mut store, &cmd, 0);
    assert_eq!(frame, vec![TYPE_SPAN_PARENT, 3, 0, 0, 0, 0, 0, 0, 0]);
}

#[test]
fn span_log_for_unknown_node_emits_nothing() {
    let mut store = store_with(10, false);
    let mut log = SpanLog::new(9);
    log.set_duration(&Elapsed::new(0, 1));
    assert!(handle_span_log(&mut store, log, 10_000).is_none());
}

#[test]
fn span_update_frame_goes_out_after_period() {
    let mut store = store_with(10, false);
    store.reserve_span(1, 0);
    let mut log = SpanLog::new(1);
    log.set_duration(&Elapsed::new(0, 42));
    let frame = handle_span_log(&mut store, log, 10_000).expect("period passed");
    assert_eq!(frame[0], TYPE_SPAN_UPDATE);
    assert_eq!(&frame[1..5], &[1, 0, 0, 0]);
}

#[test]
fn mid_stream_stop_drains_one_dataset_per_node() {
    // Recording was on with a cap of 2; three runs landed. Disabling
    // recording drains exactly one dataset for the node, reporting the
    // two rows that were kept.
    let mut store = store_with(2, true);
    store.reserve_span(1, 0);
    for ms in [10u32, 20, 30] {
        let mut log = SpanLog::new(1);
        log.set_duration(&Elapsed::new(0, ms * 1_000_000));
        let _ = handle_span_log(&mut store, log, 1);
    }
    let frames = handle_client_record(&mut store, &ClientRecord { max_rows: 2, enable: false });
    assert_eq!(frames.len(), 1);
    let frame = &frames[0];
    assert_eq!(frame[0], TYPE_SPAN_DATASET);
    assert_eq!(&frame[1..5], &[1, 0, 0, 0], "node id");
    assert_eq!(&frame[5..9], &[2, 0, 0, 0], "run count is the row cap");
    let payload_len = u32::from_le_bytes([frame[9], frame[10], frame[11], frame[12]]) as usize;
    assert_eq!(payload_len, 2 * (2 + 9), "two length-prefixed bodies");
}

#[test]
fn enabling_recording_emits_nothing() {
    let mut store = store_with(0, false);
    let frames = handle_client_record(&mut store, &ClientRecord { max_rows: 5, enable: true });
    assert_eq!(frames.len(), 0);
    assert!(store.enable_recording);
    assert_eq!(store.max_rows, 5);
}

#[test]
fn handshake_accepts_matching_client() {
    let local = Hello::new(3, None);
    let block = Hello::new(3, None).to_bytes();
    assert_eq!(check_client_hello(&local, &block), MatchResult::Accepted);
}

#[test]
fn handshake_refuses_other_major() {
    let local = Hello::new(3, None);
    let block = Hello::new(2, None).to_bytes();
    assert_eq!(check_client_hello(&local, &block), MatchResult::VersionMismatch);
}

#[test]
fn handshake_refuses_foreign_signature() {
    let local = Hello::new(3, None);
    let mut block = Hello::new(3, None).to_bytes();
    block[7] = b'!';
    assert_eq!(check_client_hello(&local, &block), MatchResult::SignatureMismatch);
}
