//! Sorting and resuming a sweep through a music library: the decisions,
//! orderings, scripts and record formats behind the `track-sweep` tool.

pub mod text;
pub mod order;
pub mod provider;
pub mod cursor_ordering;
pub mod style;
pub mod input;
pub mod decisions;
pub mod disliked;
pub mod progress;
pub mod apple_music;
pub mod index_cache;
pub mod sweep;
