//! Kinds of spans.

use vstd::prelude::*;

verus! {

/// The kind of a span: how it relates to other spans beyond parent and
/// child.
#[derive(Copy, Clone, PartialEq, Eq, Structural, Hash, Debug)]
pub enum SpanKind {
    /// The span is used internally. This is the default.
    Internal,
    /// The span covers the handling of a remote request on the server side.
    Server,
    /// The span covers a remote request on the client side.
    Client,
    /// The span covers the sending of a message to a broker.
    Producer,
    /// The span covers the receiving of a message from a broker.
    Consumer,
}

impl Default for SpanKind {
    fn default() -> (r: Self)
        ensures
            r == SpanKind::Internal,
    {
        SpanKind::Internal
    }
}

} // verus!
