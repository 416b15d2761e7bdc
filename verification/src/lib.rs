//! Context propagation model for distributed tracing: identifiers, trace
//! options, vendor trace state, span contexts, resource labels and
//! distributed-context entries with hop-counted lifetimes.

pub mod assoc;
pub mod big_endian;
pub mod distributed_context;
pub mod error;
pub mod internal;
pub mod metric;
pub mod random;
pub mod resource;
pub mod sampler;
pub mod span;
pub mod span_context;
pub mod span_id;
pub mod status;
pub mod trace_id;
pub mod trace_options;
pub mod trace_state;

pub use crate::error::{CapacityError, ValidationError};
pub use crate::resource::Resource;
pub use crate::span_context::SpanContext;
pub use crate::span_id::SpanId;
pub use crate::trace_id::TraceId;
pub use crate::trace_options::TraceOptions;
pub use crate::trace_state::{TraceState, TraceStateBuilder};
