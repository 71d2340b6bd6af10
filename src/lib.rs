//! Distributed trace-context propagation: a strict `traceparent` codec,
//! explicit context passing, and parent/child span correlation.
pub mod baggage;
pub mod codec;
pub mod context;
pub mod guard;
pub mod headers;
pub mod hex;
pub mod ids;
pub mod laws;
pub mod span;
