//! Per-episode arena allocation.

/// The arena that holds the intermediate strings and structs of one episode. It is reset
/// between episodes.
pub use bumpalo::Bump;
