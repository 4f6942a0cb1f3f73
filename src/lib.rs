//! Finding Python interpreters and virtual environments, reconciling a
//! project's declared requirements with what is installed, and supervising
//! package-manager operations.

pub mod text;
pub mod version;
pub mod models;
pub mod requirement;
pub mod reconcile;
pub mod venv;
pub mod discovery;
pub mod runner;
pub mod cache;
pub mod platform;
pub mod validation;
pub mod state;
pub mod project;
pub mod listing;
