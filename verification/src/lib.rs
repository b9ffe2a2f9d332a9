//! Cooperative cancellation: a token that operations poll or subscribe to,
//! and a source that cancels it exactly once.
//!
//! The crate holds the sequential core of the primitive: the status state
//! machine, the registry of active registrations with constant-time
//! insertion and removal, and the protocol that a scoped run and a cancel
//! sweep follow. Every function is total and carries a contract over the
//! abstract state of the token.

pub mod error;
pub mod laws;
pub mod registry;
pub mod source;
pub mod status;
pub mod token;

pub use error::OperationCanceled;
pub use registry::{Registration, Registry, RegistryView};
pub use source::CancellationTokenSource;
pub use status::Status;
pub use token::{CancellationToken, RunPlan, TokenView};
