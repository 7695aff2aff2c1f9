//! The forges that repositories are hosted on.

pub mod github;
