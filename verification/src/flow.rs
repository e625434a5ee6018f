//! Staged data-flow composition.
//!
//! A `Flow` is assembled from stages at construction time and then runs by
//! pulling data through them.  `In` and `Out` are the two ends a stage sees
//! while the flow runs: each stage consumes an `In`, declares what it is —
//! source, sink, or transfer — and hands the flow on as an `Out`.

pub mod flow;
pub mod inflow;
pub mod outflow;

pub use flow::Flow;
pub use inflow::In;
pub use outflow::Out;
