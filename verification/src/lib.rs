//! A verified reconciliation and navigation model for a terminal dashboard
//! over a file-synchronization daemon.
//!
//! The library merges configured sync-spec definitions with live session
//! records into a tree of projects, decides each spec's runtime state,
//! recommends a default fold state per project, carries operator fold choices
//! across rebuilds, and maintains a selection cursor over the flattened tree.

use vstd::prelude::*;

pub mod commands;
pub mod config;
pub mod display;
pub mod editor;
pub mod endpoint;
pub mod mutagen;
pub mod project;
pub mod selection;
pub mod status;
pub mod text;

verus! {

} // verus!
