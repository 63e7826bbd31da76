use bp3d_tracing::registry::{SpanHead, TracerCore};
use bp3d_tracing::SpanId;

#[test]
fn instances_count_up_from_zero() {
    let mut head = SpanHead::new(1);
    assert_eq!(head.new_instance(), 0);
    assert_eq!(head.new_instance(), 1);
    assert_eq!(head.new_instance(), 2);
    assert_eq!(head.instance_count, 3);
}

#[test]
fn freed_instances_are_reused() {
    let mut head = SpanHead::new(1);
    let a = head.new_instance();
    let b = head.new_instance();
    let _c = head.new_instance();
    assert!(head.free_instance(b));
    // The pooled id comes back before a fresh one.
    assert_eq!(head.new_instance(), b);
    assert!(a != b);
}

#[test]
fn concurrent_instances_are_distinct() {
    // Two activations of the same call-site live at once: their instance
    // ids differ, and both pack into distinct span tokens.
    let mut core = TracerCore::new();
    let (id_a, new_a, _) = core.new_span(100, true, None, None);
    let (id_b, new_b, _) = core.new_span(100, false, None, None);
    assert!(new_a);
    assert!(!new_b);
    assert_eq!(id_a.get_id(), id_b.get_id());
    assert!(id_a.get_instance() != id_b.get_instance());
    assert!(id_a.into_u64() != id_b.into_u64());
}

#[test]
fn quiescence_restarts_instances_at_zero() {
    // After the live count returns to zero, instance ids start over at 0.
    let mut core = TracerCore::new();
    let (id_a, _, _) = core.new_span(100, true, None, None);
    let (id_b, _, _) = core.new_span(100, false, None, None);
    assert_eq!(id_a.get_instance(), 0);
    assert_eq!(id_b.get_instance(), 1);
    assert!(core.try_close(id_a));
    assert!(core.try_close(id_b));
    let (id_c, is_new, _) = core.new_span(100, false, None, None);
    assert!(!is_new);
    assert_eq!(id_c.get_instance(), 0);
}

#[test]
fn ref_count_balances_clones_and_closes() {
    // One allocation plus two clones takes three closes to destroy.
    let mut core = TracerCore::new();
    let (id, _, _) = core.new_span(42, true, None, None);
    assert!(core.clone_span(id.into_u64()));
    assert!(core.clone_span(id.into_u64()));
    assert!(!core.try_close(id));
    assert!(!core.try_close(id));
    assert!(core.try_close(id));
    // The record is gone: another close is a no-op.
    assert!(!core.try_close(id));
}

#[test]
fn node_ids_count_up_per_call_site() {
    let mut core = TracerCore::new();
    let (a, _, _) = core.new_span(1, false, None, None);
    let (b, _, _) = core.new_span(2, false, None, None);
    let (c, _, _) = core.new_span(1, false, None, None);
    assert_eq!(a.get_id(), 1);
    assert_eq!(b.get_id(), 2);
    assert_eq!(c.get_id(), 1);
}

#[test]
fn root_span_has_no_parent() {
    // An explicit root ignores both the explicit parent and the current
    // span on the thread.
    let mut core = TracerCore::new();
    let (_, _, parent) = core.new_span(1, true, Some(77), Some(88));
    assert_eq!(parent, None);
}

#[test]
fn explicit_parent_wins_over_current() {
    let mut core = TracerCore::new();
    let (_, _, parent) = core.new_span(1, false, Some(77), Some(88));
    assert_eq!(parent, Some(77));
}

#[test]
fn current_span_is_default_parent() {
    let mut core = TracerCore::new();
    let (_, _, parent) = core.new_span(1, false, None, Some(88));
    assert_eq!(parent, Some(88));
}

#[test]
fn current_span_looks_up_record() {
    let mut core = TracerCore::new();
    let (id, _, _) = core.new_span(5, false, None, None);
    let token = id.into_u64();
    assert_eq!(core.current_span(Some(token)), Some((token, 5)));
    assert_eq!(core.current_span(None), None);
    assert_eq!(core.current_span(Some(0xFFFF_FFFF_FFFF)), None);
}

#[test]
fn freeing_an_unknown_instance_is_ignored() {
    let mut head = SpanHead::new(1);
    let _ = head.new_instance();
    assert!(!head.free_instance(9));
    assert_eq!(head.instance_count, 1);
}

#[test]
fn span_tokens_pack_node_and_instance() {
    let id = SpanId::from_parts(3, 9);
    assert_eq!(id.get_id(), 3);
    assert_eq!(id.get_instance(), 9);
    assert_eq!(id.get_id_instance(), (3, 9));
    assert_eq!(id.into_u64(), (3u64 << 32) | 9);
    let back = SpanId::from_u64(id.into_u64());
    assert_eq!(back.get_id_instance(), (3, 9));
}
