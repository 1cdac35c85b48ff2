//! The records that a build configuration is read into.
pub mod product;
pub mod bitbake;
pub mod artifact;
pub mod deploy;
pub mod upload;
pub mod subcmd;
pub mod taskcmd;
pub mod includes;
pub mod context;
pub mod task;
pub mod build_data;
