//! Command lines for the tasks of a build: bitbake recipes and container runs.
pub mod recipe;
pub mod docker;
pub mod plan;
