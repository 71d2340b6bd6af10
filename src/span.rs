//! Span creation and ending: which trace a new span joins, who its parent
//! is, and the hand-off of finished spans to a collector.
use vstd::prelude::*;
use crate::codec::TraceContext;
use crate::context::Context;
use crate::ids::new_span_ids;

verus! {

/// Fresh identifiers and a sampling decision for a span that may start a
/// new trace.
#[derive(Clone, Copy, Debug, PartialEq, Eq, Structural)]
pub struct NewSpanIds {
    pub trace_id: u128,
    pub span_id: u64,
    pub sampled: bool,
}

/// The outcome a span records.
#[derive(Clone, Copy, Debug, PartialEq, Eq, Structural)]
pub enum SpanStatus {
    Unset,
    Succeeded,
    Failed,
}

#[derive(Clone, Copy, Debug, PartialEq, Eq, Structural)]
pub enum SpanError {
    /// The span was ended before.
    AlreadyEnded,
}

/// A span: started with no end time, ended once.
pub struct Span {
    pub context: TraceContext,
    pub name: String,
    pub start_time: u64,
    pub end_time: Option<u64>,
    pub status: SpanStatus,
}

/// A span as handed to the collector.
pub struct FinishedSpan {
    pub context: TraceContext,
    pub name: String,
    pub start_time: u64,
    pub end_time: u64,
    pub status: SpanStatus,
}

/// The identity of a span that starts a new trace.
pub open spec fn root_context(ids: NewSpanIds) -> TraceContext {
    TraceContext {
        trace_id: ids.trace_id,
        span_id: ids.span_id,
        parent_span_id: None,
        sampled: ids.sampled,
    }
}

/// The span id a child takes: the drawn one, or, where that equals the
/// parent's, the drawn one with its lowest bit flipped.
pub open spec fn child_span_id(drawn: u64, parent: u64) -> u64 {
    if drawn != parent {
        drawn
    } else {
        drawn ^ 1
    }
}

/// The identity of a span started under `parent`: it joins the inherited
/// trace with the inherited span as parent, keeps its sampling decision and
/// never takes the parent's span id; with nothing to inherit, it starts a
/// new trace.
pub open spec fn child_context(parent: Context, ids: NewSpanIds) -> TraceContext {
    match parent.parent_spec() {
        Some(p) => TraceContext {
            trace_id: p.trace_id,
            span_id: child_span_id(ids.span_id, p.span_id),
            parent_span_id: Some(p.span_id),
            sampled: p.sampled,
        },
        None => root_context(ids),
    }
}

pub proof fn lemma_child_span_id_differs(drawn: u64, parent: u64)
    ensures
        child_span_id(drawn, parent) != parent,
{
    if drawn == parent {
        assert(drawn ^ 1 != drawn) by (bit_vector);
    }
}

/// Starts a span that begins a new trace.
pub fn start_root(name: String, ids: NewSpanIds, now: u64) -> (r: Span)
    ensures
        r.context == root_context(ids),
        r.name@ == name@,
        r.start_time == now,
        r.end_time is None,
        r.status == SpanStatus::Unset,
{
    Span {
        context: TraceContext {
            trace_id: ids.trace_id,
            span_id: ids.span_id,
            parent_span_id: None,
            sampled: ids.sampled,
        },
        name,
        start_time: now,
        end_time: None,
        status: SpanStatus::Unset,
    }
}

/// Starts a span under `parent`.
pub fn start_child(name: String, parent: &Context, ids: NewSpanIds, now: u64) -> (r: Span)
    ensures
        r.context == child_context(*parent, ids),
        r.name@ == name@,
        r.start_time == now,
        r.end_time is None,
        r.status == SpanStatus::Unset,
{
    match parent.parent() {
        Some(p) => {
            let span_id = if ids.span_id != p.span_id {
                ids.span_id
            } else {
                ids.span_id ^ 1
            };
            Span {
                context: TraceContext {
                    trace_id: p.trace_id,
                    span_id,
                    parent_span_id: Some(p.span_id),
                    sampled: p.sampled,
                },
                name,
                start_time: now,
                end_time: None,
                status: SpanStatus::Unset,
            }
        },
        None => start_root(name, ids, now),
    }
}

/// Starts a span that begins a new trace, with fresh random ids.
pub fn start(name: String, sampled: bool, now: u64) -> (r: Span)
    ensures
        exists|ids: NewSpanIds| ids.sampled == sampled && r.context == root_context(ids),
        r.name@ == name@,
        r.start_time == now,
        r.end_time is None,
        r.status == SpanStatus::Unset,
{
    let ids = new_span_ids(sampled);
    start_root(name, ids, now)
}

/// Starts a span under `parent`, with fresh random ids; `sampled` is used
/// only where there is nothing to inherit and the span begins a new trace.
pub fn start_with_context(name: String, parent: &Context, sampled: bool, now: u64) -> (r: Span)
    ensures
        exists|ids: NewSpanIds| ids.sampled == sampled && r.context == child_context(*parent, ids),
        parent.parent_spec() matches Some(p) ==> {
            &&& r.context.trace_id == p.trace_id
            &&& r.context.parent_span_id == Some(p.span_id)
            &&& r.context.sampled == p.sampled
            &&& r.context.span_id != p.span_id
        },
        parent.parent_spec() is None ==> r.context.parent_span_id is None && r.context.sampled
            == sampled,
        r.name@ == name@,
        r.start_time == now,
        r.end_time is None,
        r.status == SpanStatus::Unset,
{
    let ids = new_span_ids(sampled);
    let r = start_child(name, parent, ids, now);
    proof {
        if let Some(p) = parent.parent_spec() {
            lemma_child_span_id_differs(ids.span_id, p.span_id);
        }
    }
    r
}

impl Span {
    /// Records `status` on a span that has not ended; an ended span is left
    /// as it is.
    pub fn set_status(&mut self, status: SpanStatus) -> (r: Result<(), SpanError>)
        ensures
            old(self).end_time is Some ==> r == Err::<(), SpanError>(SpanError::AlreadyEnded)
                && *final(self) == *old(self),
            old(self).end_time is None ==> r is Ok && final(self).status == status
                && final(self).context == old(self).context && final(self).name@ == old(
                self,
            ).name@ && final(self).start_time == old(self).start_time && final(self).end_time
                is None,
    {
        if self.end_time.is_some() {
            return Err(SpanError::AlreadyEnded);
        }
        self.status = status;
        Ok(())
    }

    pub fn is_ended(&self) -> (r: bool)
        ensures
            r == self.end_time is Some,
    {
        self.end_time.is_some()
    }

    /// Ends the span at `now` and hands it to `sink`. A span that was ended
    /// before is left as it is, and nothing is exported.
    pub fn end(&mut self, now: u64, sink: &mut CollectorSink) -> (r: Result<(), SpanError>)
        ensures
            old(self).end_time is Some ==> r == Err::<(), SpanError>(SpanError::AlreadyEnded)
                && *final(self) == *old(self) && final(sink)@ == old(sink)@,
            old(self).end_time is None ==> {
                &&& r is Ok
                &&& final(self).context == old(self).context
                &&& final(self).name@ == old(self).name@
                &&& final(self).start_time == old(self).start_time
                &&& final(self).end_time == Some(now)
                &&& final(self).status == old(self).status
                &&& final(sink)@.len() == old(sink)@.len() + 1
                &&& final(sink)@.drop_last() == old(sink)@
                &&& final(sink)@.last().context == old(self).context
                &&& final(sink)@.last().name@ == old(self).name@
                &&& final(sink)@.last().start_time == old(self).start_time
                &&& final(sink)@.last().end_time == now
                &&& final(sink)@.last().status == old(self).status
            },
    {
        if self.end_time.is_some() {
            return Err(SpanError::AlreadyEnded);
        }
        self.end_time = Some(now);
        let finished = FinishedSpan {
            context: self.context,
            name: self.name.clone(),
            start_time: self.start_time,
            end_time: now,
            status: self.status,
        };
        sink.export(finished);
        Ok(())
    }
}

/// Collects finished spans for export, in the order they ended.
pub struct CollectorSink {
    spans: Vec<FinishedSpan>,
}

impl View for CollectorSink {
    type V = Seq<FinishedSpan>;

    closed spec fn view(&self) -> Seq<FinishedSpan> {
        self.spans@
    }
}

impl CollectorSink {
    pub fn new() -> (r: CollectorSink)
        ensures
            r@ == Seq::<FinishedSpan>::empty(),
    {
        CollectorSink { spans: Vec::new() }
    }

    /// Accepts one finished span.
    pub fn export(&mut self, span: FinishedSpan)
        ensures
            final(self)@ == old(self)@.push(span),
    {
        self.spans.push(span);
    }

    pub fn len(&self) -> (r: usize)
        ensures
            r == self@.len(),
    {
        self.spans.len()
    }

    /// Hands out every span collected so far and empties the sink.
    pub fn fetch_and_clear(&mut self) -> (r: Vec<FinishedSpan>)
        ensures
            r@ == old(self)@,
            final(self)@ == Seq::<FinishedSpan>::empty(),
    {
        let mut out = Vec::new();
        std::mem::swap(&mut out, &mut self.spans);
        out
    }
}

} // verus!
