//! Explicit context passing, and the propagator that moves a context
//! across a transport boundary through headers.
use vstd::prelude::*;
use crate::codec::{
    TraceContext, decode, decode_spec, encode_value, traceparent_key, traceparent_of, TRACEPARENT,
};
use crate::headers::HeaderMap;

verus! {

/// An immutable snapshot of the ambient trace state: the live span, if
/// any, and an inbound reference taken from headers, if any.
#[derive(Clone, Copy, Debug, PartialEq, Eq, Structural)]
pub struct Context {
    pub current: Option<TraceContext>,
    pub remote: Option<TraceContext>,
}

impl Context {
    /// A context with no trace in it.
    pub fn new() -> (r: Context)
        ensures
            r.current is None,
            r.remote is None,
    {
        Context { current: None, remote: None }
    }

    /// This context with `span` as the live span.
    pub fn with_span(&self, span: &TraceContext) -> (r: Context)
        ensures
            r == (Context { current: Some(*span), remote: self.remote }),
    {
        Context { current: Some(*span), remote: self.remote }
    }

    /// This context with `tc` as the inbound reference.
    pub fn with_remote(&self, tc: &TraceContext) -> (r: Context)
        ensures
            r == (Context { current: self.current, remote: Some(*tc) }),
    {
        Context { current: self.current, remote: Some(*tc) }
    }

    /// The identity a new span inherits: the live span wins over an
    /// inbound reference.
    pub open spec fn parent_spec(&self) -> Option<TraceContext> {
        if self.current is Some {
            self.current
        } else {
            self.remote
        }
    }

    pub fn parent(&self) -> (r: Option<TraceContext>)
        ensures
            r == self.parent_spec(),
    {
        match self.current {
            Some(tc) => Some(tc),
            None => self.remote,
        }
    }
}

/// What `extract` returns.
pub open spec fn extract_spec(base: Context, h: Seq<(Seq<char>, Seq<char>)>) -> Context {
    match decode_spec(h) {
        Some(tc) => Context { current: base.current, remote: Some(tc) },
        None => base,
    }
}

/// Writes the live span of `context` into `target`; with no live span,
/// `target` is left as it was.
pub fn inject(context: &Context, target: &mut HeaderMap)
    ensures
        context.current is None ==> final(target)@ == old(target)@,
        context.current matches Some(tc) ==> final(target).get_spec(traceparent_key()) == Some(
            traceparent_of(tc),
        ),
        forall|k: Seq<char>|
            k != traceparent_key() ==> #[trigger] final(target).get_spec(k) == old(
                target,
            ).get_spec(k),
{
    proof {
        reveal_strlit("traceparent");
        assert(TRACEPARENT@ =~= traceparent_key());
    }
    match context.current {
        Some(tc) => {
            let v = encode_value(&tc);
            target.set(TRACEPARENT, v);
        },
        None => {},
    }
}

/// `base` with the trace context found in `source` as its inbound
/// reference; `base` itself where `source` holds none or a malformed one.
pub fn extract(base: &Context, source: &HeaderMap) -> (r: Context)
    ensures
        r == extract_spec(*base, source@),
{
    match decode(source) {
        Some(tc) => base.with_remote(&tc),
        None => *base,
    }
}

} // verus!
