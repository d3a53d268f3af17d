//! The lifecycle core of a workspace of checked-out git repositories.
//!
//! A workspace is a directory tree of repositories; its library is a second
//! tree that holds repositories in bare form while they are not worked on.
//! This crate decides: what state a repository is in, which directories are
//! repositories, what dropping, restoring and opening a repository does and
//! in which order, and how a flat list of repositories becomes the forest
//! that a listing or a browser shows.
//!
//! The crate touches neither disk nor network. Where an operation needs
//! them it names the next step and takes in what the step gave, and the
//! caller does the reading and the moving.

pub mod batch;
pub mod browser;
pub mod completion;
pub mod discovery;
pub mod fuzzy;
pub mod highlight;
pub mod holding;
pub mod keys;
pub mod library;
pub mod lifecycle;
pub mod log;
pub mod metadata;
pub mod pattern;
pub mod remote;
pub mod report;
pub mod status;
pub mod store;
pub mod submodule;
pub mod text;
pub mod timestamp;
pub mod tree;
pub mod watch;
pub mod workspace;

pub use crate::metadata::{format_size, format_time_ago, format_time_ago_verbose};
pub use crate::pattern::RepoPattern;
pub use crate::status::RepoStatus;
pub use crate::submodule::SubmoduleInfo;
pub use crate::workspace::Workspace;
