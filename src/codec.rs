//! The `traceparent` wire format: `{version}-{trace_id}-{span_id}-{flags}`,
//! with version `00`, 32, 16 and 2 lowercase hexadecimal digits, and bit 0
//! of the flags holding the sampling decision.
use vstd::prelude::*;
use crate::headers::{HeaderMap, lookup};
use crate::hex::{
    all_hex, hex_of, hex_value, lemma_hex_value_bound, lemma_pow16_facts, parse_hex, push_hex,
};

verus! {

/// The identity of one span within a distributed trace.
#[derive(Clone, Copy, Debug, PartialEq, Eq, Structural)]
pub struct TraceContext {
    pub trace_id: u128,
    pub span_id: u64,
    pub parent_span_id: Option<u64>,
    pub sampled: bool,
}

/// The name of the header that carries a trace context.
pub const TRACEPARENT: &'static str = "traceparent";

pub open spec fn traceparent_key() -> Seq<char> {
    seq!['t', 'r', 'a', 'c', 'e', 'p', 'a', 'r', 'e', 'n', 't']
}

/// The header value that encodes `tc`.
pub open spec fn traceparent_of(tc: TraceContext) -> Seq<char> {
    seq!['0', '0', '-'] + hex_of(tc.trace_id as nat, 32) + seq!['-'] + hex_of(tc.span_id as nat, 16)
        + seq!['-', '0', if tc.sampled { '1' } else { '0' }]
}

/// A header value in the accepted layout.
pub open spec fn is_traceparent(s: Seq<char>) -> bool {
    &&& s.len() == 55
    &&& s[0] == '0' && s[1] == '0'
    &&& s[2] == '-' && s[35] == '-' && s[52] == '-'
    &&& all_hex(s.subrange(3, 35))
    &&& all_hex(s.subrange(36, 52))
    &&& all_hex(s.subrange(53, 55))
}

/// The trace context that a header value denotes, if it is well formed.
/// The wire carries no parent, so a decoded context has none.
pub open spec fn parse_traceparent(s: Seq<char>) -> Option<TraceContext> {
    if is_traceparent(s) {
        Some(
            TraceContext {
                trace_id: hex_value(s.subrange(3, 35)) as u128,
                span_id: hex_value(s.subrange(36, 52)) as u64,
                parent_span_id: None,
                sampled: hex_value(s.subrange(53, 55)) % 2 == 1,
            },
        )
    } else {
        None
    }
}

/// What `decode` finds in a header map.
pub open spec fn decode_spec(h: Seq<(Seq<char>, Seq<char>)>) -> Option<TraceContext> {
    match lookup(h, traceparent_key()) {
        Some(v) => parse_traceparent(v),
        None => None,
    }
}

/// The header value for `tc`.
pub fn encode_value(tc: &TraceContext) -> (r: String)
    ensures
        r@ == traceparent_of(*tc),
{
    proof {
        reveal_strlit("00-");
        reveal_strlit("-");
        reveal_strlit("-0");
        reveal_strlit("1");
        reveal_strlit("0");
    }
    let mut r = String::from_str("00-");
    push_hex(&mut r, tc.trace_id, 32);
    r.append("-");
    push_hex(&mut r, tc.span_id as u128, 16);
    r.append("-0");
    if tc.sampled {
        r.append("1");
    } else {
        r.append("0");
    }
    assert(r@ =~= traceparent_of(*tc));
    r
}

/// Reads a header value strictly: anything but the exact layout gives `None`.
pub fn decode_value(s: &str) -> (r: Option<TraceContext>)
    ensures
        r == parse_traceparent(s@),
{
    let n = s.unicode_len();
    if n != 55 {
        return None;
    }
    if s.get_char(0) != '0' || s.get_char(1) != '0' || s.get_char(2) != '-' || s.get_char(35)
        != '-' || s.get_char(52) != '-' {
        return None;
    }
    let trace_id = match parse_hex(s, 3, 35) {
        Some(v) => v,
        None => {
            return None;
        },
    };
    let span_id = match parse_hex(s, 36, 52) {
        Some(v) => v,
        None => {
            return None;
        },
    };
    let flags = match parse_hex(s, 53, 55) {
        Some(v) => v,
        None => {
            return None;
        },
    };
    proof {
        lemma_hex_value_bound(s@.subrange(36, 52));
        lemma_hex_value_bound(s@.subrange(53, 55));
        lemma_hex_value_bound(s@.subrange(3, 35));
        lemma_pow16_facts();
        assert(is_traceparent(s@));
        let p = parse_traceparent(s@).unwrap();
        assert(p.trace_id == trace_id);
        assert(p.span_id == span_id as u64);
        assert(p.sampled == (flags % 2 == 1));
    }
    Some(
        TraceContext {
            trace_id,
            span_id: span_id as u64,
            parent_span_id: None,
            sampled: flags % 2 == 1,
        },
    )
}

/// A header map that holds `tc` under `TRACEPARENT` and nothing else.
pub fn encode(tc: &TraceContext) -> (r: HeaderMap)
    ensures
        forall|k: Seq<char>| #[trigger]
            r.get_spec(k) == (if k == traceparent_key() {
                Some(traceparent_of(*tc))
            } else {
                None
            }),
{
    let mut r = HeaderMap::new();
    let v = encode_value(tc);
    proof {
        reveal_strlit("traceparent");
        assert(TRACEPARENT@ =~= traceparent_key());
    }
    r.set(TRACEPARENT, v);
    r
}

/// The trace context carried by `headers`; `None` where the header is
/// absent or malformed.
pub fn decode(headers: &HeaderMap) -> (r: Option<TraceContext>)
    ensures
        r == decode_spec(headers@),
{
    proof {
        reveal_strlit("traceparent");
        assert(TRACEPARENT@ =~= traceparent_key());
    }
    match headers.get(TRACEPARENT) {
        Some(v) => decode_value(v),
        None => None,
    }
}

} // verus!
