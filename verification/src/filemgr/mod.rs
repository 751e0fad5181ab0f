//! Where a converted file goes: its name, and what to do when a file of that
//! name is already there.

pub mod conflict;
pub mod output;

pub use conflict::{resolve_output_path, ConflictError, ConflictStrategy};
pub use output::{output_path, sanitize_filename};
