//! A filesystem search engine.
//!
//! A directory walk hands the engine one entry after another; the engine
//! decides, by the entry's base name or by the lines of its content, whether
//! the entry's path is a result. The engine itself never touches the disk:
//! whoever drives it performs the reads it asks for.

pub mod cli;
pub mod content;
pub mod engine;
pub mod entry;
pub mod laws;
pub mod matcher;
pub mod path;
pub mod pattern;
pub mod request;
pub mod search;
pub mod stream;
