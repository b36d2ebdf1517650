//! First-run repository setup: the decisions behind each setup mode.
pub mod github;
pub mod plan;
pub mod answers;
