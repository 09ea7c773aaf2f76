//! Identifier extraction from source files.
//!
//! A file's extension selects a language (module `registry`), the language's grammar and
//! capture query turn the file's bytes into lines of text (module `engine`), a worklist
//! walks directory trees (module `walk`), and the command line decides which paths are
//! visited and in what order (module `driver`).

pub mod driver;
pub mod engine;
pub mod registry;
pub mod walk;
