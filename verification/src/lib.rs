//! Splits one source image into per-monitor wallpaper fragments.
//!
//! Given a description of a multi-monitor layout and one source image, the
//! library derives the smallest canvas that contains every monitor, decides
//! whether the source must be scaled to fill that canvas, crops one fragment
//! per monitor, and keeps the fragments on disk under a content-derived
//! fingerprint so a later run with the same inputs finds them again.

pub mod config;
pub mod fingerprint;
pub mod frame;
pub mod geometry;
pub mod setter;
pub mod splitter;
