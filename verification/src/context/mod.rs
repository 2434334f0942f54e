//! The data handed to renderers for each proto file and for each output directory.
pub mod field;
pub mod message;
pub mod enums;
pub mod import;
pub mod file;
