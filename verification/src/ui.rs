//! The window: what it shows and how it reacts.

pub mod actions;
pub mod app;
pub mod data;
pub mod ghostty;
pub mod jobs;
pub mod lookups;
pub mod names;
pub mod sidebar;
pub mod workspace_panel;
