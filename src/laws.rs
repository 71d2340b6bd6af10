//! Properties that relate several operations of the library.
use vstd::prelude::*;
use crate::codec::{
    TraceContext, decode_spec, is_traceparent, parse_traceparent, traceparent_key, traceparent_of,
};
use crate::context::{Context, extract_spec};
use crate::headers::HeaderMap;
use crate::hex::{hex_of, lemma_hex_char_round_trip, lemma_hex_of_shape, lemma_hex_round_trip, lemma_pow16_facts};
use crate::span::{NewSpanIds, child_context, lemma_child_span_id_differs, root_context};

verus! {

/// Decoding the header value written for a context with no parent gives
/// that context back.
pub proof fn lemma_value_round_trip(tc: TraceContext)
    requires
        tc.parent_span_id is None,
    ensures
        parse_traceparent(traceparent_of(tc)) == Some(tc),
{
    let s = traceparent_of(tc);
    let t = hex_of(tc.trace_id as nat, 32);
    let p = hex_of(tc.span_id as nat, 16);
    let f: Seq<char> = seq!['0', if tc.sampled { '1' } else { '0' }];
    lemma_hex_of_shape(tc.trace_id as nat, 32);
    lemma_hex_of_shape(tc.span_id as nat, 16);
    lemma_pow16_facts();
    lemma_hex_round_trip(tc.trace_id as nat, 32);
    lemma_hex_round_trip(tc.span_id as nat, 16);
    assert(s.subrange(3, 35) =~= t);
    assert(s.subrange(36, 52) =~= p);
    assert(s.subrange(53, 55) =~= f);
    lemma_hex_char_round_trip(0);
    lemma_hex_char_round_trip(1);
    assert(f =~= hex_of(if tc.sampled { 1 } else { 0 }, 2)) by {
        reveal_with_fuel(hex_of, 3);
    }
    lemma_hex_of_shape(if tc.sampled { 1 } else { 0 }, 2);
    lemma_hex_round_trip(if tc.sampled { 1 } else { 0 }, 2);
    assert(is_traceparent(s));
}

/// Any header map that holds the value written for a context with no
/// parent decodes to that context: `decode(encode(tc)) == Some(tc)`, and
/// likewise for a map that `inject` wrote into.
pub proof fn lemma_round_trip(tc: TraceContext, h: HeaderMap)
    requires
        tc.parent_span_id is None,
        h.get_spec(traceparent_key()) == Some(traceparent_of(tc)),
    ensures
        decode_spec(h@) == Some(tc),
{
    lemma_value_round_trip(tc);
}

/// A header map without a well-formed trace context decodes to nothing.
pub proof fn lemma_malformed_rejected(h: HeaderMap)
    requires
        !(h.get_spec(traceparent_key()) matches Some(v) && is_traceparent(v)),
    ensures
        decode_spec(h@) is None,
{
}

/// A child started under a context whose live span is `r` joins r's trace
/// with r as parent, keeps r's sampling decision, and has a span id of its
/// own.
pub proof fn lemma_child_of_live_span(r: TraceContext, base: Context, ids: NewSpanIds)
    ensures
        child_context(Context { current: Some(r), remote: base.remote }, ids).trace_id
            == r.trace_id,
        child_context(Context { current: Some(r), remote: base.remote }, ids).parent_span_id
            == Some(r.span_id),
        child_context(Context { current: Some(r), remote: base.remote }, ids).span_id
            != r.span_id,
        child_context(Context { current: Some(r), remote: base.remote }, ids).sampled
            == r.sampled,
{
    lemma_child_span_id_differs(ids.span_id, r.span_id);
}

/// Across a boundary: a child started under the context extracted from
/// headers into which `r` was injected joins r's trace with r as parent
/// keeps r's sampling decision, and has a span id of its own.
pub proof fn lemma_child_across_headers(
    r: TraceContext,
    h: HeaderMap,
    base: Context,
    ids: NewSpanIds,
)
    requires
        r.parent_span_id is None,
        h.get_spec(traceparent_key()) == Some(traceparent_of(r)),
        base.current is None,
    ensures
        extract_spec(base, h@).parent_spec() == Some(r),
        child_context(extract_spec(base, h@), ids).trace_id == r.trace_id,
        child_context(extract_spec(base, h@), ids).parent_span_id == Some(r.span_id),
        child_context(extract_spec(base, h@), ids).span_id != r.span_id,
        child_context(extract_spec(base, h@), ids).sampled == r.sampled,
{
    lemma_round_trip(r, h);
    lemma_child_span_id_differs(ids.span_id, r.span_id);
}

/// Extracting from a map without headers leaves the base context as it
/// was, and a span started under an empty context starts a new trace.
pub proof fn lemma_no_headers_no_trace(base: Context, h: HeaderMap, ids: NewSpanIds)
    requires
        h@.len() == 0,
    ensures
        extract_spec(base, h@) == base,
        child_context(Context { current: None, remote: None }, ids) == root_context(ids),
{
}

/// Whether each span of `chain` was started under a context whose live
/// span is the one before it, with the fresh ids `ids`.
pub open spec fn is_lineage(chain: Seq<TraceContext>, ids: Seq<NewSpanIds>) -> bool {
    &&& chain.len() >= 1
    &&& ids.len() + 1 == chain.len()
    &&& forall|i: int|
        0 <= i < ids.len() ==> #[trigger] chain[i + 1] == child_context(
            Context { current: Some(chain[i]), remote: None },
            ids[i],
        )
}

/// Every descendant of a span keeps its trace and its sampling decision,
/// and each has its parent's span as parent and a span id of its own.
pub proof fn lemma_lineage_inherits(chain: Seq<TraceContext>, ids: Seq<NewSpanIds>)
    requires
        is_lineage(chain, ids),
    ensures
        forall|i: int| 0 <= i < chain.len() ==> #[trigger] chain[i].sampled == chain[0].sampled,
        forall|i: int| 0 <= i < chain.len() ==> #[trigger] chain[i].trace_id == chain[0].trace_id,
        forall|i: int|
            0 < i < chain.len() ==> #[trigger] chain[i].parent_span_id == Some(
                chain[i - 1].span_id,
            ),
        forall|i: int|
            0 < i < chain.len() ==> #[trigger] chain[i].span_id != chain[i - 1].span_id,
    decreases chain.len(),
{
    if chain.len() > 1 {
        let c2 = chain.drop_last();
        let i2 = ids.drop_last();
        assert forall|i: int| 0 <= i < i2.len() implies #[trigger] c2[i + 1] == child_context(
            Context { current: Some(c2[i]), remote: None },
            i2[i],
        ) by {
            assert(chain[i + 1] == child_context(
                Context { current: Some(chain[i]), remote: None },
                ids[i],
            ));
        }
        lemma_lineage_inherits(c2, i2);
        let n = ids.len() - 1;
        assert(chain[n + 1] == child_context(
            Context { current: Some(chain[n]), remote: None },
            ids[n],
        ));
        lemma_child_span_id_differs(ids[n].span_id, chain[n].span_id);
        assert forall|i: int| 0 <= i < chain.len() implies #[trigger] chain[i].sampled
            == chain[0].sampled by {
            if i < c2.len() {
                assert(chain[i] == c2[i]);
            }
        }
        assert forall|i: int| 0 <= i < chain.len() implies #[trigger] chain[i].trace_id
            == chain[0].trace_id by {
            assert(chain[0] == c2[0]);
            if i < c2.len() {
                assert(chain[i] == c2[i]);
            } else {
                assert(chain[n] == c2[n]);
                assert(c2[n].trace_id == c2[0].trace_id);
            }
        }
        assert forall|i: int| 0 < i < chain.len() implies #[trigger] chain[i].span_id
            != chain[i - 1].span_id by {
            if i < c2.len() {
                assert(chain[i] == c2[i]);
                assert(chain[i - 1] == c2[i - 1]);
            }
        }
        assert forall|i: int| 0 < i < chain.len() implies #[trigger] chain[i].parent_span_id
            == Some(chain[i - 1].span_id) by {
            if i < c2.len() {
                assert(chain[i] == c2[i]);
                assert(chain[i - 1] == c2[i - 1]);
            }
        }
    }
}

} // verus!
