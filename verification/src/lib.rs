//! Verified core of a static photo-gallery site generator.
//!
//! The library scans a directory tree (handed to it as plain values) into a
//! validated gallery model, assigns deterministic ordering, derives URL-safe
//! identifiers for every page and image, and decides which thumbnails are
//! stale and must be regenerated.  Filesystem access, template rendering and
//! image encoding live outside the library; it only ever computes on plain
//! values and states exactly what it computes.

pub mod error;
pub mod input;
pub mod model;
pub mod output;
pub mod text;
pub mod webpath;
