use bp3d_tracing::duration::Elapsed;
use bp3d_tracing::log_msg::SpanLog;
use bp3d_tracing::store::{SpanData, SpanStore};
use bp3d_tracing::wire::{ClientConfig, ClientRecord, Duration};

fn config(max_rows: u32, enable: bool, period: u16) -> ClientConfig {
    ClientConfig {
        max_average_points: 1000,
        max_level: None,
        record: ClientRecord { max_rows, enable },
        period,
    }
}

fn run_of(node: u32, millis: u32) -> SpanLog {
    let mut log = SpanLog::new(node);
    log.set_duration(&Elapsed::new(0, millis * 1_000_000));
    log
}

#[test]
fn update_keeps_duration_between_extremes() {
    // After every update the new duration lies between min and max.
    let mut data = SpanData::new(0);
    data.update(&Elapsed::new(0, 500), 100);
    assert_eq!(data.min_time, Elapsed::new(0, 500));
    assert_eq!(data.max_time, Elapsed::new(0, 500));
    data.update(&Elapsed::new(0, 100), 100);
    assert_eq!(data.min_time, Elapsed::new(0, 100));
    assert_eq!(data.max_time, Elapsed::new(0, 500));
    data.update(&Elapsed::new(1, 0), 100);
    assert_eq!(data.min_time, Elapsed::new(0, 100));
    assert_eq!(data.max_time, Elapsed::new(1, 0));
}

#[test]
fn average_is_windowed_mean() {
    let mut data = SpanData::new(0);
    data.update(&Elapsed::new(1, 0), 100);
    data.update(&Elapsed::new(3, 0), 100);
    assert_eq!(data.average_run_count, 2);
    assert_eq!(data.get_average(), Elapsed::new(2, 0));
}

#[test]
fn average_window_resets_at_cap() {
    let mut data = SpanData::new(0);
    data.update(&Elapsed::new(1, 0), 3);
    data.update(&Elapsed::new(1, 0), 3);
    assert_eq!(data.average_run_count, 2);
    // The third update reaches the window size: the count and total
    // restart, then the new run lands in the fresh window.
    data.update(&Elapsed::new(5, 0), 3);
    assert_eq!(data.average_run_count, 0);
    assert_eq!(data.total_time, Elapsed::new(5, 0));
}

#[test]
fn single_run_statistics_match_duration() {
    // One 123 ms run: min, max and average all report 123 ms.
    let mut store = SpanStore::new(1_000_000, 200, &config(0, false, 200));
    store.reserve_span(1, 0);
    let update = store.record(run_of(1, 123), 1000).expect("period has passed");
    assert_eq!(update.id, 1);
    assert_eq!(update.run_count, 0);
    assert_eq!(update.min_time, Duration { seconds: 0, nano_seconds: 123_000_000 });
    assert_eq!(update.max_time, Duration { seconds: 0, nano_seconds: 123_000_000 });
    assert_eq!(update.average_time, Duration { seconds: 0, nano_seconds: 123_000_000 });
}

#[test]
fn push_rate_is_limited_by_period() {
    // Two pushes for the same node are at least one period apart.
    let mut store = SpanStore::new(1_000_000, 200, &config(0, false, 300));
    store.reserve_span(1, 1000);
    assert!(store.record(run_of(1, 5), 1100).is_none());
    assert!(store.record(run_of(1, 5), 1299).is_none());
    assert!(store.record(run_of(1, 5), 1300).is_some());
    // The period clock restarted at the push.
    assert!(store.record(run_of(1, 5), 1400).is_none());
    assert!(store.record(run_of(1, 5), 1600).is_some());
}

#[test]
fn period_respects_server_floor() {
    let store = SpanStore::new(1_000_000, 200, &config(0, false, 50));
    assert_eq!(store.period, 200);
    let store2 = SpanStore::new(1_000_000, 200, &config(0, false, 450));
    assert_eq!(store2.period, 450);
}

#[test]
fn recording_caps_rows_per_node() {
    // With a row cap of 2, three runs leave one dataset of exactly two
    // length-prefixed bodies.
    let mut store = SpanStore::new(1_000_000, 200, &config(2, true, 200));
    store.reserve_span(1, 0);
    let _ = store.record(run_of(1, 10), 1);
    let _ = store.record(run_of(1, 20), 2);
    let _ = store.record(run_of(1, 30), 3);
    let datasets = store.stop_recording();
    assert_eq!(datasets.len(), 1);
    let (header, buffer) = &datasets[0];
    assert_eq!(header.id, 1);
    assert_eq!(header.run_count, 2);
    // Each body: a 16-bit length prefix, then the sealed record — a field
    // count byte and the 8 duration bytes.
    assert_eq!(buffer.len(), 2 * (2 + 9));
    assert_eq!(buffer[0], 9);
    assert_eq!(buffer[1], 0);
    let first_body = &buffer[2..11];
    assert_eq!(first_body[0], 0, "no fields were recorded");
    // Duration of the first recorded run: 0 seconds, 10 ms.
    assert_eq!(&first_body[1..5], &[0, 0, 0, 0]);
    assert_eq!(u32::from_le_bytes([first_body[5], first_body[6], first_body[7], first_body[8]]),
        10_000_000);
}

#[test]
fn stop_recording_resets_rows_and_buffers() {
    let mut store = SpanStore::new(1_000_000, 200, &config(5, true, 200));
    store.reserve_span(1, 0);
    let _ = store.record(run_of(1, 10), 1);
    let datasets = store.stop_recording();
    assert_eq!(datasets.len(), 1);
    assert!(!store.enable_recording);
    // A second stop has nothing left to drain.
    let again = store.stop_recording();
    assert_eq!(again.len(), 0);
}

#[test]
fn disabled_recording_appends_nothing() {
    let mut store = SpanStore::new(1_000_000, 200, &config(5, false, 200));
    store.reserve_span(1, 0);
    let _ = store.record(run_of(1, 10), 1);
    let datasets = store.stop_recording();
    assert_eq!(datasets.len(), 0);
}

#[test]
fn start_recording_caps_requested_rows() {
    let mut store = SpanStore::new(10, 200, &config(0, false, 200));
    store.start_recording(50);
    assert!(store.enable_recording);
    assert_eq!(store.max_rows, 10);
    store.start_recording(3);
    assert_eq!(store.max_rows, 3);
}

#[test]
fn unknown_node_is_dropped() {
    let mut store = SpanStore::new(1_000_000, 200, &config(5, true, 200));
    assert!(store.record(run_of(9, 10), 10_000).is_none());
    assert_eq!(store.stop_recording().len(), 0);
}
