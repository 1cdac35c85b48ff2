//! Bakery: the verified core of a build engine for Yocto/OE and Android
//! projects. Build configurations and workspace settings are JSON documents;
//! this crate reads them into typed records, expands context variables in
//! them and composes the command lines that the tool runs.
use vstd::prelude::*;

pub mod text;
pub mod json;
pub mod error;
pub mod imap;
pub mod configs;
pub mod data;
pub mod executers;
pub mod paths;
pub mod workspace;
pub mod collector;
pub mod commands;
pub mod order;
pub mod listing;

verus! {

} // verus!
