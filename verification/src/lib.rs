//! Classify the files of a git repository's current snapshot and the commits
//! on its first-parent line of history.
//!
//! A file is `Ignore` when its sniffed MIME type is not textual (or is a
//! gettext catalogue), `Test` when its path contains `"test"`, and `NotTest`
//! otherwise. A commit is `Test` when the diff against its first parent (or
//! against the empty tree for a root commit) touches a path containing
//! `"test"`.

pub mod classify;
pub mod history;
pub mod repo;
pub mod sniff;
pub mod snapshot;
pub mod text;
