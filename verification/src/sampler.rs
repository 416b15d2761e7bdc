//! What a sampler is told of the parent of a new span.

use crate::span_context::SpanContext;
use vstd::prelude::*;

verus! {

/// The parent of a new span.
#[derive(PartialEq, Eq, Debug)]
pub enum ParentContext {
    /// The span has a parent in another process.
    RemoteParent(SpanContext),
    /// The span has a parent in this process.
    Parent(SpanContext),
    /// The span is the root of its trace and has no parent.
    RootSpan,
}

impl ParentContext {
    /// The context of the parent, if there is a parent.
    pub fn context(&self) -> (r: Option<&SpanContext>)
        ensures
            r == match *self {
                ParentContext::RemoteParent(context) => Some(&context),
                ParentContext::Parent(context) => Some(&context),
                ParentContext::RootSpan => None,
            },
    {
        match self {
            ParentContext::RemoteParent(context) => Some(context),
            ParentContext::Parent(context) => Some(context),
            ParentContext::RootSpan => None,
        }
    }
}

} // verus!
