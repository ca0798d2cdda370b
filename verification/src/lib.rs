//! Connector for Memgraph: what it answers to the calls of its host, which statements it has a
//! server run, and what it makes of their rows.
//!
//! A call starts in [`driver`]. Settings are read in [`config`], rows become tables in [`rows`],
//! and [`walk`] goes through the schema of a graph. Reaching the server is left to the caller.

use vstd::prelude::*;

pub mod bolt;
pub mod config;
pub mod connections;
pub mod driver;
pub mod fault;
pub mod json;
pub mod laws;
pub mod metadata;
pub mod parse;
pub mod reply;
pub mod rows;
pub mod text;
pub mod version;
pub mod walk;

verus! {

/// The engine that this connector speaks to.
pub const ENGINE: &'static str = "memgraph";

/// The connector comes with its driver.
pub const DRIVER_LINKED: bool = true;

} // verus!
