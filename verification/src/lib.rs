//! A byte-level patch engine for a fixed executable image.
//!
//! The library owns an in-memory byte buffer (the image) and applies an
//! ordered list of patch operations to it: absolute-offset overwrites,
//! read-modify-write bit sets, multi-range atomic units, and
//! find-and-replace substitutions. A catalog module translates validated
//! configuration values into the concrete patch list for one known
//! executable build.

pub mod catalog;
pub mod encode;
pub mod engine;
