//! What a language server decides when it builds a crate with the Rust compiler: where the
//! compiler runs and with which arguments and variables, which files it reads from memory, which
//! files belong to which crate, and what is reported in the end. Running the compiler is left to
//! the caller, who hands in what came of it as plain values.
//!
//! Paths are text, which `path_text` makes of any path of the operating system. Keys that are paths
//! are compared as `std::path::Path` compares them.

pub mod command;
pub mod compilation;
pub mod config;
pub mod crates;
pub mod environment;
pub mod loader;
pub mod path;
pub mod path_text;
pub mod shared;
pub mod source_map;
pub mod sysroot;
pub mod table;
pub mod text;
