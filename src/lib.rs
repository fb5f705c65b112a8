//! Platform layer of a script runner's persistent cache: where the cache and
//! configuration live, how a legacy cache layout is folded into the current one,
//! how a path is stored as bytes, and how clock readings become milliseconds.
pub mod error;
pub mod platform;
pub mod templates;
pub mod web;
