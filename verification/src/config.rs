//! Pipeline configuration types.
//!
//! - [`scan_configs`] — content types, extraction window, near-duplicate detection,
//!   entropy and secret scan
//! - [`search`] — hybrid search
//! - [`pipeline`] — the whole configuration and the overlay of explicit settings
//! - [`builder`] — the fluent builder
//! - [`telemetry`] — name prefixes

pub mod builder;
pub mod pipeline;
pub mod scan_configs;
pub mod search;
pub mod telemetry;

pub use builder::PipelineConfigBuilder;
pub use pipeline::{
    EmbeddingDim, PipelineConfig, PipelineConfigOverrides, ResolutionStrategy,
    DEFAULT_CONTRADICTION_DETECTION_ENABLED,
};
pub use scan_configs::{
    ContentType, EntropyConfig, ExtractionWindowConfig, MinHashConfig, SecretScanConfig,
    SecretScanMode,
};
pub use search::SearchConfig;
pub use telemetry::Config;
