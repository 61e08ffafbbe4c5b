//! The rules of filesystem requests: how files are opened, what metadata
//! means, and how directories are made and read.
pub mod dir_builder;
pub mod metadata;
pub mod open_options;
pub mod read_dir;
pub mod write;
