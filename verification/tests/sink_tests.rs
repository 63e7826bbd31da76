use bp3d_tracing::duration::Elapsed;
use bp3d_tracing::fields::{Field, Value, decode_field, TAG_U8, TAG_F64, TAG_STR};
use bp3d_tracing::level::Level;
use bp3d_tracing::sink::{CallSiteInfo, ProfilerSink, SpanControl};
use bp3d_tracing::SpanId;

fn info(name: &[u8]) -> CallSiteInfo {
    CallSiteInfo {
        level: Level::Info,
        line: Some(10),
        name: name.to_vec(),
        target: b"app".to_vec(),
        module: None,
        file: None,
    }
}

#[test]
fn allocation_is_announced_before_anything_else() {
    // The first activation of a call-site puts the registration first in
    // the command list, before the parent update that mentions the node.
    let mut sink = ProfilerSink::new(None);
    let id = SpanId::from_parts(1, 0);
    let out = sink.span_create(id, true, None, info(b"work"), &Vec::new());
    assert_eq!(out.len(), 2);
    assert!(matches!(out[0].ty, SpanControl::Alloc { .. }));
    assert!(matches!(out[1].ty, SpanControl::UpdateParent { parent: None }));
    assert_eq!(out[0].id.into_u64(), id.into_u64());
}

#[test]
fn known_call_site_is_not_reannounced() {
    let mut sink = ProfilerSink::new(None);
    let id = SpanId::from_parts(1, 0);
    let _ = sink.span_create(id, true, None, info(b"work"), &Vec::new());
    // The same span runs again with the same parent: no commands at all.
    let out = sink.span_create(id, false, None, info(b"work"), &Vec::new());
    assert_eq!(out.len(), 0);
}

#[test]
fn parent_change_is_reported() {
    let mut sink = ProfilerSink::new(None);
    let id = SpanId::from_parts(1, 0);
    let _ = sink.span_create(id, true, None, info(b"work"), &Vec::new());
    let out = sink.span_create(id, false, Some(4), info(b"work"), &Vec::new());
    assert_eq!(out.len(), 1);
    assert!(matches!(out[0].ty, SpanControl::UpdateParent { parent: Some(4) }));
}

#[test]
fn span_exit_reports_duration() {
    let mut sink = ProfilerSink::new(None);
    let id = SpanId::from_parts(1, 0);
    let _ = sink.span_create(id, true, None, info(b"work"), &Vec::new());
    let log = sink.span_exit(id, &Elapsed::new(2, 500_000_000)).expect("span is live");
    assert_eq!(log.id, 1);
    assert_eq!(log.duration_secs, 2);
    assert_eq!(log.duration_nanos, 500_000_000);
}

#[test]
fn exit_of_unknown_span_is_ignored() {
    let mut sink = ProfilerSink::new(None);
    let id = SpanId::from_parts(1, 0);
    assert!(sink.span_exit(id, &Elapsed::new(0, 1)).is_none());
}

#[test]
fn span_fields_are_recorded_into_the_scratch() {
    let mut sink = ProfilerSink::new(None);
    let id = SpanId::from_parts(1, 0);
    let fields = vec![Field::new(b"n".to_vec(), Value::Unsigned(7))];
    let _ = sink.span_create(id, true, None, info(b"work"), &fields);
    let log = sink.span_exit(id, &Elapsed::new(0, 1)).unwrap();
    let (name, value, _) = decode_field(&log.buf.data, 0).unwrap();
    assert_eq!(name, b"n".to_vec());
    assert!(matches!(value, Value::Unsigned(7)));
}

#[test]
fn event_carries_three_fields_in_order() {
    // An info event with {count=7u64, ratio=0.5f64, msg="ok"}: the record
    // holds the three TLV fields with tags U8, F64 and STR, in insertion
    // order, after the NUL-terminated target and module names.
    let sink = ProfilerSink::new(None);
    let fields = vec![
        Field::new(b"count".to_vec(), Value::Unsigned(7)),
        Field::new(b"ratio".to_vec(), Value::Float(0.5f64.to_bits())),
        Field::new(b"msg".to_vec(), Value::Text(b"ok".to_vec())),
    ];
    let event = sink.event(Some(3), 1700000000, Level::Info, &b"main".to_vec(),
        &b"app".to_vec(), &fields);
    assert_eq!(event.id, Some(3));
    assert_eq!(event.level, Level::Info);
    assert_eq!(event.timestamp, 1700000000);
    assert_eq!(event.buf.var_count, 3);
    // Leading names: target NUL module NUL.
    assert_eq!(&event.buf.data[0..3], b"app");
    assert_eq!(event.buf.data[3], 0);
    assert_eq!(&event.buf.data[4..8], b"main");
    assert_eq!(event.buf.data[8], 0);
    // Then the three fields, in insertion order.
    let (n1, v1, end1) = decode_field(&event.buf.data, 9).unwrap();
    assert_eq!(n1, b"count".to_vec());
    assert!(matches!(v1, Value::Unsigned(7)));
    assert_eq!(event.buf.data[9 + 6], TAG_U8);
    let (n2, v2, end2) = decode_field(&event.buf.data, end1).unwrap();
    assert_eq!(n2, b"ratio".to_vec());
    assert_eq!(event.buf.data[end1 + 6], TAG_F64);
    match v2 {
        Value::Float(bits) => assert_eq!(f64::from_bits(bits), 0.5),
        _ => panic!("expected a float"),
    }
    let (n3, v3, end3) = decode_field(&event.buf.data, end2).unwrap();
    assert_eq!(n3, b"msg".to_vec());
    assert_eq!(event.buf.data[end2 + 4], TAG_STR);
    assert!(matches!(v3, Value::Text(t) if t == b"ok".to_vec()));
    assert_eq!(end3, event.buf.data.len());
}

#[test]
fn level_hint_is_reported() {
    let sink = ProfilerSink::new(Some(Level::Warning));
    assert_eq!(sink.max_level_hint(), Some(Level::Warning));
}

#[test]
fn late_values_are_folded_into_the_scratch() {
    let mut sink = ProfilerSink::new(None);
    let id = SpanId::from_parts(1, 0);
    let _ = sink.span_create(id, true, None, info(b"work"), &Vec::new());
    let fields = vec![Field::new(b"late".to_vec(), Value::Bool(true))];
    assert!(sink.span_values(id, &fields));
    let log = sink.span_exit(id, &Elapsed::new(0, 1)).unwrap();
    let (name, value, _) = decode_field(&log.buf.data, 0).unwrap();
    assert_eq!(name, b"late".to_vec());
    assert!(matches!(value, Value::Bool(true)));
    // An unknown span takes nothing.
    assert!(!sink.span_values(SpanId::from_parts(9, 0), &fields));
}
