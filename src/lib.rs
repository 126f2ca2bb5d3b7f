//! Core of a video timeline generator: frames arriving in any order are mapped
//! to time buckets, box-filtered down to a single column, and composited into
//! a timeline image and a set of thumbnail grids. A WebVTT manifest maps each
//! bucket's time range to its thumbnail's region.
//!
//! Everything here works on plain values: frames are byte buffers in BGRx
//! layout, timestamps are integer nanoseconds or milliseconds. Decoding,
//! scaling to thumbnail size, encoding and file output belong to the program
//! that drives this library.

pub mod bucket;
pub mod compositor;
pub mod config;
pub mod error;
pub mod frame;
pub mod grid;
pub mod manifest;
pub mod tracker;

pub use bucket::bucket_index;
pub use compositor::Compositor;
pub use config::{validate, Arguments, Config, ConfigError, PartialConfig};
pub use error::TimelineError;
pub use frame::Frame;
pub use grid::{grid_count, grid_position, grid_size};
pub use manifest::{cue, grid_filename, manifest, time_range, timestamp};
pub use tracker::{CompletionTracker, Phase};
