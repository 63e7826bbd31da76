use bp3d_tracing::stack::SpanStack;

#[test]
fn push_and_pop_measure_elapsed_time() {
    let mut stack = SpanStack::new();
    stack.push_span(7, 1_000);
    let elapsed = stack.pop_span(7, 124_001_000).expect("span was entered");
    assert_eq!(elapsed.secs, 0);
    assert_eq!(elapsed.nanos, 124_000_000);
    assert_eq!(stack.current_span(), None);
}

#[test]
fn pop_searches_by_id_not_lifo() {
    // A span entered below another can exit first: exit searches the stack
    // by id, as happens when a span is handed across threads.
    let mut stack = SpanStack::new();
    stack.push_span(1, 100);
    stack.push_span(2, 200);
    let elapsed = stack.pop_span(1, 600).expect("span 1 is on the stack");
    assert_eq!(elapsed.nanos, 500);
    // Span 2 is still current.
    assert_eq!(stack.current_span(), Some(2));
}

#[test]
fn pop_removes_topmost_occurrence() {
    // The same span entered twice: the topmost frame goes first.
    let mut stack = SpanStack::new();
    stack.push_span(5, 100);
    stack.push_span(5, 900);
    let elapsed = stack.pop_span(5, 1000).unwrap();
    assert_eq!(elapsed.nanos, 100, "the later entry is measured");
    let elapsed2 = stack.pop_span(5, 1000).unwrap();
    assert_eq!(elapsed2.nanos, 900, "then the earlier one");
}

#[test]
fn pop_of_unentered_span_is_ignored() {
    let mut stack = SpanStack::new();
    stack.push_span(1, 0);
    assert!(stack.pop_span(9, 10).is_none());
    assert_eq!(stack.current_span(), Some(1));
}

#[test]
fn clock_running_backwards_reports_zero() {
    let mut stack = SpanStack::new();
    stack.push_span(1, 1000);
    let elapsed = stack.pop_span(1, 500).unwrap();
    assert_eq!(elapsed.secs, 0);
    assert_eq!(elapsed.nanos, 0);
}

#[test]
fn current_span_is_top_of_stack() {
    let mut stack = SpanStack::new();
    assert_eq!(stack.current_span(), None);
    stack.push_span(1, 0);
    stack.push_span(2, 0);
    assert_eq!(stack.current_span(), Some(2));
}
