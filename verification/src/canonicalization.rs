//! Surface-form canonicalization.
//!
//! Entities of one namespace whose embeddings are closer than a threshold are
//! surface variants of one real-world entity. The one with the longer description is
//! kept and the other is merged into it.
//!
//! - [`pairs`] — which pairs are nominated, and the merge that each loser is resolved to
//! - [`adjudicate`] — the decision of a model on each merge
//! - [`adjudicated`] — what is written for each decision
//! - [`executor`] — the transaction of one merge
//! - [`effects`] — what that transaction does to the graph
//! - [`sql`] — the texts that it sends, read as commands on tables
//! - [`store`] — what it does to the whole store, indexes and records included
//! - [`snapshot`] — what a merge destroys, captured before it does
//! - [`chain`] — merges that move an identity a second time
//! - [`tables`] — the rows that a merge reads and writes
//! - [`base64_text`] — binary columns as text

pub mod adjudicate;
pub mod adjudicated;
pub mod base64_text;
pub mod chain;
pub mod effects;
pub mod executor;
pub mod pairs;
pub mod snapshot;
pub mod sql;
pub mod store;
pub mod tables;

pub use adjudicate::L5Adjudicator;
pub use pairs::{CanonicalizationReport, EntitySlot, L5_CANONICALIZATION_THRESHOLD_BITS};
