//! Verified budgeting library: money amounts, month documents, their
//! calculation, and the editing state used by the terminal front end.
pub mod text;
pub mod digits;
pub mod error;
pub mod money;
pub mod month;
pub mod clock;
pub mod config;
pub mod state;
pub mod editing;
pub mod setup;
pub mod cli;
pub mod launch;
pub mod repository;
pub mod app;
pub mod locator;
pub mod shorten;
pub mod view;
pub mod theme;
