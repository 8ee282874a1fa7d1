//! Synchronisation and self-update engine of a game launcher.
//!
//! The library keeps an installed application in step with a manifest that a
//! server publishes. It decides which files to fetch, how packed archives are
//! brought up to date, and how the launcher replaces its own executable. All
//! input and output is left to the caller: the library hands out actions and
//! takes their outcomes back as events.

pub mod attempt;
pub mod error;
pub mod json;
pub mod manifest;
pub mod message;
pub mod platform;
pub mod presentation;
pub mod runs;
pub mod safety;
pub mod self_update;
pub mod sync;
pub mod text;
pub mod transfer;
pub mod traversal;
pub mod urls;
pub mod version;
pub mod worker;
