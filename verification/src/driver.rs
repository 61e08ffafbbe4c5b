//! Backend state shared by the platform drivers.
pub mod backends;
pub mod helpers;
pub mod op_table;
pub mod ops;
