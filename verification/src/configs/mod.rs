//! Configuration records and the helpers that read them out of JSON.
pub mod config;
pub mod settings;
pub mod context;
pub mod task;
pub mod bitbake;
pub mod artifact;
pub mod handler;
