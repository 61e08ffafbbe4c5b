//! The decision-making core of a completion-based asynchronous I/O runtime:
//! operation lifecycles, readiness and completion bookkeeping, cancellation
//! scopes, and the filesystem request rules.
//!
//! Nothing in this crate performs a system call. Each function takes what the
//! kernel reported as plain values and says which state and which actions
//! follow.
pub mod buf;
pub mod driver;
pub mod error;
pub mod fs;
pub mod slab;
pub mod task;
