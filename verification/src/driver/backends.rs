//! Operation lifecycles of the three platform backends.
//!
//! A backend records what became of each operation and answers, for each event
//! that the platform reports, what is to be done next. The system calls
//! themselves are made by the caller.
pub mod iouring;
pub mod kqueue;
pub mod iocp;
