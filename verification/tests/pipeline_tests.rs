use bp3d_tracing::duration::Elapsed;
use bp3d_tracing::registry::TracerCore;
use bp3d_tracing::sink::{CallSiteInfo, ProfilerSink, SpanControl};
use bp3d_tracing::level::Level;
use bp3d_tracing::store::SpanStore;
use bp3d_tracing::wire::{ClientConfig, ClientRecord, SpanUpdate, TYPE_SPAN_ALLOC,
    TYPE_SPAN_PARENT, TYPE_SPAN_UPDATE};
use bp3d_tracing::worker::{handle_span_command, handle_span_log};

// One span runs once for 123 ms: the wire sees its registration first,
// then its root parent, and after the push period an aggregate update
// whose minimum, maximum and mean all report the single run.
#[test]
fn one_run_end_to_end() {
    let mut core = TracerCore::new();
    let mut sink = ProfilerSink::new(None);
    let mut store = SpanStore::new(
        1_000_000,
        200,
        &ClientConfig {
            max_average_points: 1000,
            max_level: None,
            record: ClientRecord { max_rows: 1_000_000, enable: true },
            period: 200,
        },
    );

    // The instrumented thread allocates and enters the span.
    let (id, is_new, parent) = core.new_span(0xC0FFEE, false, None, None);
    assert!(is_new);
    assert_eq!(parent, None);
    let info = CallSiteInfo {
        level: Level::Info,
        line: Some(1),
        name: b"work".to_vec(),
        target: b"app".to_vec(),
        module: None,
        file: None,
    };
    let commands = sink.span_create(id, is_new, None, info, &Vec::new());

    // The worker turns the commands into frames: the allocation first.
    let mut frames = Vec::new();
    for command in &commands {
        frames.push(handle_span_command(&mut store, command, 0));
    }
    assert_eq!(frames.len(), 2);
    assert_eq!(frames[0][0], TYPE_SPAN_ALLOC);
    assert_eq!(frames[1][0], TYPE_SPAN_PARENT);
    assert_eq!(&frames[1][1..9], &[1, 0, 0, 0, 0, 0, 0, 0], "node 1, root parent");
    assert!(matches!(commands[0].ty, SpanControl::Alloc { .. }));

    // The span exits after 123 ms; the period has passed, so the update
    // frame goes out.
    let log = sink.span_exit(id, &Elapsed::new(0, 123_000_000)).expect("span is live");
    let frame = handle_span_log(&mut store, log, 1_000).expect("push is due");
    assert_eq!(frame[0], TYPE_SPAN_UPDATE);
    let header: Vec<u8> = frame[1..].to_vec();
    let (update, _) = SpanUpdate::decode(&header, 0).expect("well-formed update");
    assert_eq!(update.id, 1);
    assert_eq!(update.run_count, 1);
    assert_eq!(update.min_time.nano_seconds, 123_000_000);
    assert_eq!(update.max_time.nano_seconds, 123_000_000);
    assert_eq!(update.average_time.nano_seconds, 123_000_000);

    // Closing the last handle frees the instance; the next activation of
    // the call-site starts over at instance zero.
    assert!(core.try_close(id));
    let (id2, is_new2, _) = core.new_span(0xC0FFEE, false, None, None);
    assert!(!is_new2);
    assert_eq!(id2.get_instance(), 0);
}
