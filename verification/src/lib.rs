//! Manage coding-agent repositories and workspaces.

pub mod attach;
pub mod bindings;
pub mod cmd;
pub mod effects;
pub mod error;
pub mod forges;
pub mod operations;
pub mod opts;
pub mod paths;
pub mod prune;
pub mod repos;
pub mod runtime;
pub mod schema;
pub mod seqs;
pub mod serve_loop;
pub mod session_ops;
pub mod sessions;
pub mod sync;
pub mod table;
pub mod text;
pub mod ui;
pub mod workspaces;
