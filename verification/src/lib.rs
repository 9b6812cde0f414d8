//! Core logic of the Audiobooker download manager.
use vstd::prelude::*;

pub mod abb;
pub mod abb_parse;
pub mod accounts;
pub mod abs_sync;
pub mod cache;
pub mod config;
pub mod content;
pub mod error;
pub mod files;
pub mod json;
pub mod libraries;
pub mod limits;
pub mod lits;
pub mod magnet;
pub mod metadata;
pub mod models;
pub mod paths;
pub mod push;
pub mod qbittorrent;
pub mod settings;
pub mod text;
pub mod workflow;

verus! {
}
