//! Recall: search hits, their ranking, and the expansion of the best of them.
//!
//! Scores are computed outside with floating-point arithmetic. What is decided here is
//! which hits a score is made of, how scored hits are ranked, which neighbours a seed
//! brings in, which score an entity ends up with, and which seeds the floor drops.
//!
//! - [`ranking`] — fusion of the hit lists and ranking of scored ids
//! - [`expansion`] — what the seeds bring in, and the floor

pub mod expansion;
pub mod ranking;
