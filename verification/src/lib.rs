//! Execution contexts for a query engine: a tree of scopes that carries a
//! deadline, a cooperative cancellation signal and read-only bindings from
//! each scope to the scopes nested inside it.

pub mod bindings;
pub mod cancellation;
pub mod canceller;
pub mod clock;
pub mod context;
pub mod error;
pub mod laws;
pub mod reason;
pub mod shared;
