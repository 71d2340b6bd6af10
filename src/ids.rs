//! Fresh random identifiers, drawn the way the telemetry client draws them.
use vstd::prelude::*;
use crate::hex::{all_hex, hex_value, lemma_hex_value_bound, lemma_pow16_facts, parse_hex};
use crate::span::NewSpanIds;

verus! {

/// Relies on `sentry_core::protocol::TraceId::default`, which draws 16
/// random bytes, and on its conversion to `String`, which writes them with
/// `hex::encode`: 32 lowercase hexadecimal digits.
#[verifier::external_body]
fn random_trace_id_hex() -> (r: String)
    ensures
        r@.len() == 32,
        all_hex(r@),
{
    String::from(sentry_core::protocol::TraceId::default())
}

/// Relies on `sentry_core::protocol::SpanId::default`, which draws 8
/// random bytes, and on its conversion to `String`, which writes them with
/// `hex::encode`: 16 lowercase hexadecimal digits.
#[verifier::external_body]
fn random_span_id_hex() -> (r: String)
    ensures
        r@.len() == 16,
        all_hex(r@),
{
    String::from(sentry_core::protocol::SpanId::default())
}

/// The ids spelled by 32 and 16 lowercase hexadecimal digits; `None`
/// where either string has another length or another character.
pub fn span_ids_from_hex(t: &str, s: &str, sampled: bool) -> (r: Option<NewSpanIds>)
    ensures
        r == (if t@.len() == 32 && all_hex(t@) && s@.len() == 16 && all_hex(s@) {
            Some(
                NewSpanIds {
                    trace_id: hex_value(t@) as u128,
                    span_id: hex_value(s@) as u64,
                    sampled,
                },
            )
        } else {
            None::<NewSpanIds>
        }),
{
    if t.unicode_len() != 32 || s.unicode_len() != 16 {
        return None;
    }
    assert(t@.subrange(0, 32) =~= t@);
    assert(s@.subrange(0, 16) =~= s@);
    let trace_id = match parse_hex(t, 0, 32) {
        Some(v) => v,
        None => {
            return None;
        },
    };
    let span_id = match parse_hex(s, 0, 16) {
        Some(v) => v,
        None => {
            return None;
        },
    };
    proof {
        lemma_hex_value_bound(s@);
        lemma_pow16_facts();
    }
    Some(NewSpanIds { trace_id, span_id: span_id as u64, sampled })
}

/// Fresh random trace and span ids, with the sampling decision given.
pub fn new_span_ids(sampled: bool) -> (r: NewSpanIds)
    ensures
        r.sampled == sampled,
{
    let t = random_trace_id_hex();
    let s = random_span_id_hex();
    match span_ids_from_hex(t.as_str(), s.as_str(), sampled) {
        Some(ids) => ids,
        None => NewSpanIds { trace_id: 0, span_id: 0, sampled },
    }
}

} // verus!
