//! A changelog that is kept as a directory: one directory for each release,
//! in it one directory for each change type, and in that one file for each
//! entry.
//!
//! Nothing here reads a directory or a file. The functions take the names
//! and the contents that were found, and say what they stand for and what is
//! wrong with them.

pub mod change_type;
pub mod changelog;
pub mod entry;
pub mod entry_laws;
pub mod release;
