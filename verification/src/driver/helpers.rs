//! State that the driver keeps beside the operations, and the rules for
//! handles, paths and sockets.
pub mod attached_handle;
pub mod cstr;
pub mod io_handle;
pub mod scopes;
pub mod socket;
