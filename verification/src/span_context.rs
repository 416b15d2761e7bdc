//! Span contexts: the state that travels to child spans and across process
//! boundaries.

use crate::span_id::SpanId;
use crate::trace_id::TraceId;
use crate::trace_options::TraceOptions;
use crate::trace_state::TraceState;
use vstd::prelude::*;

verus! {

/// The identifiers of a span with the options and the vendor state of its
/// trace. Two contexts are the same when all four parts are.
#[derive(PartialEq, Eq, PartialOrd, Ord, Hash, Debug)]
pub struct SpanContext {
    pub trace_id: TraceId,
    pub span_id: SpanId,
    pub options: TraceOptions,
    pub state: TraceState,
}

/// What a span context holds: the trace identifier, the span identifier, the
/// byte of option bits and the pairs of the trace state.
pub struct SpanContextView {
    pub trace_id: u128,
    pub span_id: u64,
    pub options: u8,
    pub state: Seq<(Seq<char>, Seq<char>)>,
}

impl View for SpanContext {
    type V = SpanContextView;

    open spec fn view(&self) -> SpanContextView {
        SpanContextView {
            trace_id: self.trace_id@,
            span_id: self.span_id@,
            options: self.options@,
            state: self.state@,
        }
    }
}

impl Clone for SpanContext {
    fn clone(&self) -> (r: Self)
        ensures
            r@ == self@,
    {
        SpanContext {
            trace_id: self.trace_id,
            span_id: self.span_id,
            options: self.options,
            state: self.state.clone(),
        }
    }
}

impl Default for SpanContext {
    fn default() -> (r: Self)
        ensures
            r@ == SpanContext::spec_invalid(),
    {
        SpanContext::invalid()
    }
}

impl SpanContext {
    /// What the invalid span context holds: both identifiers zero, no option
    /// set, no vendor state.
    pub open spec fn spec_invalid() -> SpanContextView {
        SpanContextView { trace_id: 0, span_id: 0, options: 0, state: Seq::empty() }
    }

    /// A context is valid when its trace identifier and its span identifier
    /// both are.
    pub open spec fn spec_is_valid(&self) -> bool {
        self.trace_id.spec_is_valid() && self.span_id.spec_is_valid()
    }

    /// A span context of the given parts.
    pub fn new(trace_id: TraceId, span_id: SpanId, options: TraceOptions, state: TraceState) -> (r:
        Self)
        ensures
            r.trace_id == trace_id,
            r.span_id == span_id,
            r.options == options,
            r.state == state,
    {
        SpanContext { trace_id, span_id, options, state }
    }

    /// The invalid span context, for use where there is no span. Every call
    /// gives the same value.
    pub fn invalid() -> (r: Self)
        ensures
            r@ == Self::spec_invalid(),
            !r.spec_is_valid(),
    {
        SpanContext {
            trace_id: TraceId::get_invalid(),
            span_id: SpanId::invalid(),
            options: TraceOptions::default_options(),
            state: TraceState::default(),
        }
    }

    /// Whether the context is valid.
    pub fn is_valid(&self) -> (r: bool)
        ensures
            r == self.spec_is_valid(),
            r == (self@.trace_id != 0 && self@.span_id != 0),
    {
        self.trace_id.is_valid() && self.span_id.is_valid()
    }
}

} // verus!
