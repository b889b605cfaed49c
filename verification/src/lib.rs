//! The logic of a web frontend for Git repositories.
//!
//! The library decides what is read of a repository, and what is shown of what was read; it does
//! not read itself. A request is a value that says what to read next and takes what came of it.

pub mod commit;
pub mod diff;
pub mod error;
pub mod git;
pub mod highlight;
pub mod oid;
pub mod paths;
pub mod readme;
pub mod tag;
pub mod text;
pub mod tree;
