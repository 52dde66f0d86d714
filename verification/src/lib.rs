//! A tag-based file manager's core: tags are directories of a data directory, and a file
//! carries a tag when a symbolic link to it sits in the tag's directory.
//!
//! The library decides; the caller does the file-system work. Adding, removing and applying
//! tags are state machines (`io`) that name each step for the caller to carry out; a search
//! picks its results from the listings that the caller read; a command line is turned into an
//! operation by `operation`.
pub mod add;
pub mod error;
pub mod file_tag;
pub mod io;
pub mod operation;
pub mod path;
pub mod remove;
pub mod search;
