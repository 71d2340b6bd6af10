use sentry_trace::codec::{decode, decode_value, encode, encode_value, TraceContext, TRACEPARENT};
use sentry_trace::context::{extract, inject, Context};
use sentry_trace::headers::HeaderMap;
use sentry_trace::span::{
    start, start_child, start_root, start_with_context, CollectorSink, NewSpanIds, SpanError,
    SpanStatus,
};

const TRACE_A: u128 = 0x4bf92f3577b34da6a3ce929d0e0e4736;
const SPAN_A: u64 = 0x00f067aa0ba902b7;
const VALUE_A: &str = "00-4bf92f3577b34da6a3ce929d0e0e4736-00f067aa0ba902b7-01";

fn ids(trace_id: u128, span_id: u64, sampled: bool) -> NewSpanIds {
    NewSpanIds { trace_id, span_id, sampled }
}

fn tc(trace_id: u128, span_id: u64, sampled: bool) -> TraceContext {
    TraceContext { trace_id, span_id, parent_span_id: None, sampled }
}

fn headers_with(value: &str) -> HeaderMap {
    let mut h = HeaderMap::new();
    h.set(TRACEPARENT, value.to_string());
    h
}

#[test]
fn test_creates_distributed_trace() {
    let mut transport = CollectorSink::new();

    // first service
    let mut first_span = start("first_service".to_string(), true, 1);
    let first_service_ctx = Context::new().with_span(&first_span.context);
    let mut headers = HeaderMap::new();
    inject(&first_service_ctx, &mut headers);
    assert_eq!(first_span.end(2, &mut transport), Ok(()));

    let first_envelopes = transport.fetch_and_clear();
    assert_eq!(first_envelopes.len(), 1);
    let first_tx = &first_envelopes[0];
    let (first_trace_id, first_span_id) = (first_tx.context.trace_id, first_tx.context.span_id);
    assert_eq!(first_tx.context.parent_span_id, None);

    // second service
    let second_service_ctx = extract(&Context::new(), &headers);
    let mut second_span =
        start_with_context("second_service".to_string(), &second_service_ctx, false, 3);
    assert_eq!(second_span.end(4, &mut transport), Ok(()));

    let second_envelopes = transport.fetch_and_clear();
    assert_eq!(second_envelopes.len(), 1);
    let second_tx = &second_envelopes[0];
    let (second_trace_id, second_span_id, second_parent_span_id) = (
        second_tx.context.trace_id,
        second_tx.context.span_id,
        second_tx.context.parent_span_id,
    );

    assert_eq!(first_trace_id, second_trace_id, "Trace IDs should match");
    assert_ne!(first_span_id, second_span_id, "Span IDs should be different");
    assert_eq!(
        second_parent_span_id,
        Some(first_span_id),
        "Second service's parent span ID should match first service's span ID"
    );
    assert!(second_tx.context.sampled);
    assert_eq!(second_tx.name, "second_service");
    assert_eq!(second_tx.start_time, 3);
    assert_eq!(second_tx.end_time, 4);
}

#[test]
fn encode_value_is_exact() {
    assert_eq!(encode_value(&tc(TRACE_A, SPAN_A, true)), VALUE_A);
    assert_eq!(
        encode_value(&tc(1, 2, false)),
        "00-00000000000000000000000000000001-0000000000000002-00"
    );
    assert_eq!(
        encode_value(&tc(u128::MAX, u64::MAX, true)),
        "00-ffffffffffffffffffffffffffffffff-ffffffffffffffff-01"
    );
}

#[test]
fn encode_writes_one_header() {
    let h = encode(&tc(TRACE_A, SPAN_A, true));
    assert_eq!(h.len(), 1);
    assert_eq!(h.get("traceparent"), Some(VALUE_A));
}

#[test]
fn decode_value_reads_fields() {
    assert_eq!(decode_value(VALUE_A), Some(tc(TRACE_A, SPAN_A, true)));
}

#[test]
fn round_trip_through_headers() {
    for c in [
        tc(TRACE_A, SPAN_A, true),
        tc(0, 0, false),
        tc(u128::MAX, u64::MAX, false),
        tc(0x0123456789abcdef0123456789abcdef, 0xfedcba9876543210, true),
    ] {
        assert_eq!(decode(&encode(&c)), Some(c));
    }
}

#[test]
fn empty_map_yields_no_trace() {
    let h = HeaderMap::new();
    assert_eq!(decode(&h), None);
    let ctx = extract(&Context::new(), &h);
    assert_eq!(ctx, Context::new());
    let span = start_child("next".to_string(), &ctx, ids(7, 8, true), 0);
    assert_eq!(span.context.parent_span_id, None);
    assert_eq!(span.context.trace_id, 7);
    assert_eq!(span.context.span_id, 8);
}

#[test]
fn wrong_trace_id_length_is_rejected() {
    let v = "00-4bf92f3577b34da6a3ce929d0e0e47-00f067aa0ba902b7-01";
    assert_eq!(decode_value(v), None);
    assert_eq!(decode(&headers_with(v)), None);
}

#[test]
fn malformed_values_are_rejected() {
    for v in [
        "",
        "garbage",
        "01-4bf92f3577b34da6a3ce929d0e0e4736-00f067aa0ba902b7-01",
        "00-4BF92F3577B34DA6A3CE929D0E0E4736-00f067aa0ba902b7-01",
        "00-4bf92f3577b34da6a3ce929d0e0e4736-00f067aa0ba902b7-0g",
        "00_4bf92f3577b34da6a3ce929d0e0e4736-00f067aa0ba902b7-01",
        "00-4bf92f3577b34da6a3ce929d0e0e4736_00f067aa0ba902b7-01",
        "00-4bf92f3577b34da6a3ce929d0e0e4736-00f067aa0ba902b7_01",
        "00-4bf92f3577b34da6a3ce929d0e0e4736-00f067aa0ba902b-01",
        "00-4bf92f3577b34da6a3ce929d0e0e4736-00f067aa0ba902b7-01-",
        "00-4bf92f3577b34da6a3ce929d0e0e473é-00f067aa0ba902b7-01",
        "00-4bf92f3577b34da6a3ce929d0e0e4736-00f067aa0ba902b7-1",
    ] {
        assert_eq!(decode_value(v), None, "{}", v);
    }
}

#[test]
fn flags_bit_zero_is_sampled() {
    let on = decode_value("00-4bf92f3577b34da6a3ce929d0e0e4736-00f067aa0ba902b7-03").unwrap();
    assert!(on.sampled);
    let off = decode_value("00-4bf92f3577b34da6a3ce929d0e0e4736-00f067aa0ba902b7-02").unwrap();
    assert!(!off.sampled);
}

#[test]
fn extract_of_malformed_keeps_base() {
    let base = Context::new().with_remote(&tc(5, 6, true));
    let ctx = extract(&base, &headers_with("00-zz"));
    assert_eq!(ctx, base);
}

#[test]
fn extract_sets_inbound_reference() {
    let base = Context::new();
    let ctx = extract(&base, &headers_with(VALUE_A));
    assert_eq!(ctx.current, None);
    assert_eq!(ctx.remote, Some(tc(TRACE_A, SPAN_A, true)));
}

#[test]
fn inject_without_span_is_noop() {
    let mut h = HeaderMap::new();
    h.set("other", "x".to_string());
    inject(&Context::new(), &mut h);
    assert_eq!(h.len(), 1);
    assert_eq!(h.get("other"), Some("x"));
    assert_eq!(h.get("traceparent"), None);

    let remote_only = Context::new().with_remote(&tc(1, 2, true));
    inject(&remote_only, &mut h);
    assert_eq!(h.len(), 1);
    assert_eq!(h.get("traceparent"), None);
}

#[test]
fn inject_replaces_existing_header() {
    let mut h = headers_with("stale");
    h.set("other", "x".to_string());
    let ctx = Context::new().with_span(&tc(TRACE_A, SPAN_A, true));
    inject(&ctx, &mut h);
    assert_eq!(h.len(), 2);
    assert_eq!(h.get("traceparent"), Some(VALUE_A));
    assert_eq!(h.get("other"), Some("x"));
}

#[test]
fn live_span_wins_over_inbound_reference() {
    let ctx = Context::new().with_remote(&tc(1, 2, false)).with_span(&tc(3, 4, true));
    let child = start_child("c".to_string(), &ctx, ids(9, 10, false), 0);
    assert_eq!(child.context.trace_id, 3);
    assert_eq!(child.context.parent_span_id, Some(4));
    assert!(child.context.sampled);
}

#[test]
fn drawn_id_equal_to_parent_is_replaced() {
    let ctx = Context::new().with_span(&tc(3, 4, true));
    let span = start_child("c".to_string(), &ctx, ids(9, 4, false), 0);
    assert_eq!(
        span.context,
        TraceContext { trace_id: 3, span_id: 5, parent_span_id: Some(4), sampled: true }
    );
    let ctx = Context::new().with_span(&tc(3, 5, false));
    let span = start_child("c".to_string(), &ctx, ids(9, 5, true), 0);
    assert_eq!(span.context.span_id, 4);
    assert_eq!(span.context.parent_span_id, Some(5));
    assert!(!span.context.sampled);
}

#[test]
fn status_is_kept_until_end() {
    let mut sink = CollectorSink::new();
    let mut span = start_root("s".to_string(), ids(1, 2, true), 0);
    assert_eq!(span.status, SpanStatus::Unset);
    assert_eq!(span.set_status(SpanStatus::Failed), Ok(()));
    assert_eq!(span.end(1, &mut sink), Ok(()));
    assert_eq!(span.set_status(SpanStatus::Succeeded), Err(SpanError::AlreadyEnded));
    assert_eq!(span.status, SpanStatus::Failed);
    assert_eq!(sink.fetch_and_clear()[0].status, SpanStatus::Failed);
}

#[test]
fn sampling_is_inherited_by_descendants() {
    let root = start_root("r".to_string(), ids(100, 1, false), 0);
    let mut parent = root.context;
    for i in 2..6u64 {
        let ctx = Context::new().with_span(&parent);
        let child = start_child("d".to_string(), &ctx, ids(i as u128, i, true), i);
        assert_eq!(child.context.sampled, root.context.sampled);
        assert_eq!(child.context.trace_id, 100);
        assert_eq!(child.context.parent_span_id, Some(parent.span_id));
        parent = child.context;
    }
}

#[test]
fn ending_twice_is_an_error() {
    let mut sink = CollectorSink::new();
    let mut span = start_root("s".to_string(), ids(1, 2, true), 10);
    assert!(!span.is_ended());
    assert_eq!(span.end(20, &mut sink), Ok(()));
    assert!(span.is_ended());
    assert_eq!(span.end_time, Some(20));
    assert_eq!(span.end(30, &mut sink), Err(SpanError::AlreadyEnded));
    assert_eq!(span.end_time, Some(20));
    assert_eq!(sink.len(), 1);
    let out = sink.fetch_and_clear();
    assert_eq!(out.len(), 1);
    assert_eq!(out[0].end_time, 20);
    assert_eq!(sink.len(), 0);
}

#[test]
fn header_map_set_and_get() {
    let mut h = HeaderMap::new();
    assert_eq!(h.get("a"), None);
    h.set("a", "1".to_string());
    h.set("b", "2".to_string());
    h.set("a", "3".to_string());
    assert_eq!(h.len(), 2);
    assert_eq!(h.get("a"), Some("3"));
    assert_eq!(h.get("b"), Some("2"));
}

#[test]
fn header_map_keys_in_order() {
    let mut h = HeaderMap::new();
    h.set("b", "1".to_string());
    h.set("a", "2".to_string());
    h.set("b", "3".to_string());
    assert_eq!(h.keys(), vec!["b".to_string(), "a".to_string()]);
}
