//! Verified core of the kremory memory engine.
//!
//! The core decides; it never performs. Where the engine talks to a database, a model or
//! a clock, the core is a state machine: it names the next request, takes the reply and
//! says what follows. Everything it decides is stated in contracts over plain
//! mathematical models and proved.
//!
//! - [`background`] — the ingestion pipeline: queue, batches, the two phases, the worker
//! - [`canonicalization`] — merging the surface forms of one entity, reversibly
//! - [`context`] — recall: ranking, expansion and the floor
//! - [`config`] — the pipeline's configuration
//! - [`chat_tracking`] — what is recorded of a chat call
//! - [`chunking`] — splitting of long texts for callers
//! - [`arena`] — the arena of one episode
//! - [`confidence`] — how two confidences become one
//! - [`clock`], [`error`], [`ieee`], [`json`], [`selection`], [`text`] — what the others
//!   are built on

pub mod arena;
pub mod background;
pub mod canonicalization;
pub mod chat_tracking;
pub mod chunking;
pub mod clock;
pub mod confidence;
pub mod config;
pub mod context;
pub mod error;
pub mod ieee;
pub mod json;
pub mod selection;
pub mod text;
