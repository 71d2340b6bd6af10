use sentry_trace::context::Context;
use sentry_trace::ids::{new_span_ids, span_ids_from_hex};
use sentry_trace::span::{start, start_with_context};

#[test]
fn fresh_ids_differ() {
    let a = new_span_ids(true);
    let b = new_span_ids(false);
    assert!(a.sampled);
    assert!(!b.sampled);
    assert_ne!(a.trace_id, b.trace_id);
    assert_ne!(a.span_id, b.span_id);
}

#[test]
fn fresh_root_has_no_parent() {
    let r = start("root".to_string(), false, 5);
    assert_eq!(r.context.parent_span_id, None);
    assert!(!r.context.sampled);
    assert_eq!(r.start_time, 5);
    assert_eq!(r.end_time, None);
}

#[test]
fn fresh_child_joins_parent_trace() {
    let r = start("root".to_string(), true, 0);
    let ctx = Context::new().with_span(&r.context);
    let c = start_with_context("child".to_string(), &ctx, false, 1);
    assert_eq!(c.context.trace_id, r.context.trace_id);
    assert_eq!(c.context.parent_span_id, Some(r.context.span_id));
    assert_ne!(c.context.span_id, r.context.span_id);
    assert!(c.context.sampled);
}

#[test]
fn fresh_span_without_parent_is_root() {
    let c = start_with_context("lonely".to_string(), &Context::new(), true, 1);
    assert_eq!(c.context.parent_span_id, None);
    assert!(c.context.sampled);
}

#[test]
fn ids_from_hex_are_exact() {
    let r = span_ids_from_hex("4bf92f3577b34da6a3ce929d0e0e4736", "00f067aa0ba902b7", true).unwrap();
    assert_eq!(r.trace_id, 0x4bf92f3577b34da6a3ce929d0e0e4736);
    assert_eq!(r.span_id, 0x00f067aa0ba902b7);
    assert!(r.sampled);
}

#[test]
fn ids_from_bad_hex_are_rejected() {
    assert!(span_ids_from_hex("4bf92f3577b34da6a3ce929d0e0e473", "00f067aa0ba902b7", true).is_none());
    assert!(span_ids_from_hex("4bf92f3577b34da6a3ce929d0e0e4736", "00f067aa0ba902bZ", true).is_none());
    assert!(span_ids_from_hex("4BF92F3577B34DA6A3CE929D0E0E4736", "00f067aa0ba902b7", true).is_none());
}
