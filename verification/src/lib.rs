//! Engine of a terminal front end for an external download tool.
//!
//! The engine keeps an authoritative registry of download tasks, parses the
//! line-oriented progress protocol the external tool writes on its standard
//! output, derives a filterable view of the registry for a presentation
//! layer, and encodes the registry for persistence between runs.  All text
//! that flows through the engine is handled as raw bytes; the surrounding
//! binary converts terminal input and subprocess output at the boundary.

pub mod bytes_util;
pub mod filter;
pub mod manager;
pub mod model;
pub mod progress;
pub mod runner;
pub mod slug;
pub mod status;
pub mod store;
pub mod task;
pub mod update;
