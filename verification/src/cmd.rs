//! The commands: what each asks for, and what it prints.

pub mod prune;
pub mod repo;
pub mod run;
pub mod session;
pub mod table;
pub mod workspace;
