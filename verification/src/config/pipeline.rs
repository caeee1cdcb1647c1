//! The pipeline configuration and the sparse overlay of explicit settings.

use vstd::prelude::*;
use std::time::Duration;
use crate::config::builder::PipelineConfigBuilder;
use crate::config::scan_configs::{
    EntropyConfig, ExtractionWindowConfig, MinHashConfig, SecretScanConfig, SecretScanMode,
};
use crate::config::search::SearchConfig;
use crate::ieee::Binary32;

verus! {

/// Whether contradiction detection runs when nothing else is said.
pub const DEFAULT_CONTRADICTION_DETECTION_ENABLED: bool = true;

/// Dimension of the embedding vectors.
#[derive(Debug, Clone, Copy, PartialEq, Eq, Structural)]
pub struct EmbeddingDim(pub usize);

impl Default for EmbeddingDim {
    fn default() -> (r: Self)
        ensures
            r == EmbeddingDim(384),
    {
        EmbeddingDim(384)
    }
}

/// How the ambiguous rest of entity resolution reaches the model.
#[derive(Debug, Clone, Copy, PartialEq, Eq, Structural)]
pub enum ResolutionStrategy {
    /// One call for each pair of an entity and a candidate.
    Pairwise,
    /// One call for each window of ambiguous entities.
    Batched,
}

impl Default for ResolutionStrategy {
    fn default() -> (r: Self)
        ensures
            r == ResolutionStrategy::Batched,
    {
        ResolutionStrategy::Batched
    }
}

/// Top-level pipeline configuration.
#[derive(Debug, Clone)]
pub struct PipelineConfig {
    /// Dimension of the embedding vectors.
    pub embedding_dim: EmbeddingDim,
    /// Window of the extraction prompt.
    pub extraction_window: ExtractionWindowConfig,
    /// Near-duplicate detection.
    pub minhash: MinHashConfig,
    /// Entropy pre-filter.
    pub entropy: EntropyConfig,
    /// Secret scan at the ingest boundary.
    pub secret_scan: SecretScanConfig,
    /// Hybrid search.
    pub search: SearchConfig,
    /// Entity types that are extracted; empty means all.
    pub allowed_entity_types: Vec<String>,
    /// Edge types that are resolved; empty means all.
    pub allowed_edge_types: Vec<String>,
    /// Entity types that are never extracted.
    pub excluded_entity_types: Vec<String>,
    /// How long a cached entry stays fresh.
    pub cache_ttl: Duration,
    /// Most entries of the cache.
    pub cache_max_entries: usize,
    /// Wall-clock budget of one extraction arm.
    pub extraction_arm_budget_ms: u64,
    /// Preceding episodes that are replayed into the extraction prompt; zero switches
    /// the replay off.
    pub prior_turn_replay_depth: usize,
    /// Extraction calls that run at the same time.
    pub extraction_concurrency: usize,
    /// Candidates that an entity is compared with in a large group.
    pub resolution_block_k: usize,
    /// Cosine below which a candidate is dropped without a verdict; zero switches the
    /// floor off.
    pub resolution_min_cosine: Binary32,
    pub resolution_strategy: ResolutionStrategy,
    /// Most ambiguous entities of one resolution window.
    pub resolution_batch_max_entities: usize,
    /// Whether contradictions are looked for during ingest.
    pub contradiction_detection_enabled: bool,
}

/// Explicit settings, field by field. A field that is `None` was not set and leaves
/// whatever an earlier layer decided.
#[derive(Debug, Clone)]
pub struct PipelineConfigOverrides {
    pub content_stream_weight: Option<Binary32>,
    pub graph_degree_weight: Option<Binary32>,
    pub rrf_k: Option<usize>,
    pub episode_dense_enabled: Option<bool>,
    pub fact_dense_enabled: Option<bool>,
    pub embed_task_prefix_enabled: Option<bool>,
    pub proximity_weight: Option<Binary32>,
    pub temporal_weight: Option<Binary32>,
    pub rerank_candidate_max_chars: Option<usize>,
    pub contradiction_detection_enabled: Option<bool>,
    pub prior_turn_replay_depth: Option<usize>,
    pub extraction_arm_budget_ms: Option<u64>,
    pub secret_scan_enabled: Option<bool>,
    pub secret_scan_mode: Option<SecretScanMode>,
}

/// The explicit value where there is one, else the earlier one.
pub open spec fn overridden<T>(explicit: Option<T>, earlier: T) -> T {
    match explicit {
        Some(v) => v,
        None => earlier,
    }
}

/// The configuration with every explicit setting in place of the earlier one.
pub open spec fn overlay(o: PipelineConfigOverrides, c: PipelineConfig) -> PipelineConfig {
    PipelineConfig {
        search: SearchConfig {
            content_stream_weight: overridden(o.content_stream_weight, c.search.content_stream_weight),
            graph_degree_weight: overridden(o.graph_degree_weight, c.search.graph_degree_weight),
            rrf_k: overridden(o.rrf_k, c.search.rrf_k),
            episode_dense_enabled: overridden(o.episode_dense_enabled, c.search.episode_dense_enabled),
            fact_dense_enabled: overridden(o.fact_dense_enabled, c.search.fact_dense_enabled),
            embed_task_prefix_enabled: overridden(o.embed_task_prefix_enabled, c.search.embed_task_prefix_enabled),
            proximity_weight: overridden(o.proximity_weight, c.search.proximity_weight),
            temporal_weight: overridden(o.temporal_weight, c.search.temporal_weight),
            rerank_candidate_max_chars: overridden(o.rerank_candidate_max_chars, c.search.rerank_candidate_max_chars),
            ..c.search
        },
        secret_scan: SecretScanConfig {
            enabled: overridden(o.secret_scan_enabled, c.secret_scan.enabled),
            mode: overridden(o.secret_scan_mode, c.secret_scan.mode),
        },
        contradiction_detection_enabled: overridden(o.contradiction_detection_enabled, c.contradiction_detection_enabled),
        prior_turn_replay_depth: overridden(o.prior_turn_replay_depth, c.prior_turn_replay_depth),
        extraction_arm_budget_ms: overridden(o.extraction_arm_budget_ms, c.extraction_arm_budget_ms),
        ..c
    }
}

impl PipelineConfigOverrides {
    /// Applies the weights of search.
    fn apply_weights(&self, builder: PipelineConfigBuilder) -> (r: PipelineConfigBuilder)
        ensures
            r.texts() == builder.texts(),
            r@ == (PipelineConfig {
                search: SearchConfig {
                    content_stream_weight: overridden(self.content_stream_weight, builder@.search.content_stream_weight),
                    graph_degree_weight: overridden(self.graph_degree_weight, builder@.search.graph_degree_weight),
                    rrf_k: overridden(self.rrf_k, builder@.search.rrf_k),
                    proximity_weight: overridden(self.proximity_weight, builder@.search.proximity_weight),
                    temporal_weight: overridden(self.temporal_weight, builder@.search.temporal_weight),
                    ..builder@.search
                },
                ..builder@
            }),
    {
        let mut b = builder;
        if let Some(v) = self.content_stream_weight {
            b = b.content_stream_weight(v);
        }
        if let Some(v) = self.graph_degree_weight {
            b = b.graph_degree_weight(v);
        }
        if let Some(v) = self.rrf_k {
            b = b.rrf_k(v);
        }
        if let Some(v) = self.proximity_weight {
            b = b.proximity_weight(v);
        }
        if let Some(v) = self.temporal_weight {
            b = b.temporal_weight(v);
        }
        b
    }

    /// Applies the switches of search.
    fn apply_switches(&self, builder: PipelineConfigBuilder) -> (r: PipelineConfigBuilder)
        ensures
            r.texts() == builder.texts(),
            r@ == (PipelineConfig {
                search: SearchConfig {
                    episode_dense_enabled: overridden(self.episode_dense_enabled, builder@.search.episode_dense_enabled),
                    fact_dense_enabled: overridden(self.fact_dense_enabled, builder@.search.fact_dense_enabled),
                    embed_task_prefix_enabled: overridden(self.embed_task_prefix_enabled, builder@.search.embed_task_prefix_enabled),
                    rerank_candidate_max_chars: overridden(self.rerank_candidate_max_chars, builder@.search.rerank_candidate_max_chars),
                    ..builder@.search
                },
                ..builder@
            }),
    {
        let mut b = builder;
        if let Some(v) = self.episode_dense_enabled {
            b = b.episode_dense_enabled(v);
        }
        if let Some(v) = self.fact_dense_enabled {
            b = b.fact_dense_enabled(v);
        }
        if let Some(v) = self.embed_task_prefix_enabled {
            b = b.embed_task_prefix_enabled(v);
        }
        if let Some(v) = self.rerank_candidate_max_chars {
            b = b.rerank_candidate_max_chars(v);
        }
        b
    }

    /// Applies the settings of the secret scan.
    fn apply_secret_scan(&self, builder: PipelineConfigBuilder) -> (r: PipelineConfigBuilder)
        ensures
            r.texts() == builder.texts(),
            r@ == (PipelineConfig {
                secret_scan: SecretScanConfig {
                    enabled: overridden(self.secret_scan_enabled, builder@.secret_scan.enabled),
                    mode: overridden(self.secret_scan_mode, builder@.secret_scan.mode),
                },
                ..builder@
            }),
    {
        let mut b = builder;
        if let Some(v) = self.secret_scan_enabled {
            b = b.secret_scan_enabled(v);
        }
        if let Some(v) = self.secret_scan_mode {
            b = b.secret_scan_mode(v);
        }
        b
    }

    /// Applies the explicit settings. They win over whatever an earlier layer set, and a
    /// setting that is not there leaves that layer's value.
    pub fn apply(&self, builder: PipelineConfigBuilder) -> (r: PipelineConfigBuilder)
        ensures
            r.texts() == builder.texts(),
            r@ == overlay(*self, builder@),
    {
        let mut b = self.apply_secret_scan(self.apply_switches(self.apply_weights(builder)));
        if let Some(v) = self.contradiction_detection_enabled {
            b = b.contradiction_detection_enabled(v);
        }
        if let Some(v) = self.prior_turn_replay_depth {
            b = b.prior_turn_replay_depth(v);
        }
        if let Some(v) = self.extraction_arm_budget_ms {
            b = b.extraction_arm_budget_ms(v);
        }
        b
    }
}

impl Default for PipelineConfigOverrides {
    fn default() -> (r: Self)
        ensures
            r == no_overrides(),
    {
        PipelineConfigOverrides {
            content_stream_weight: None,
            graph_degree_weight: None,
            rrf_k: None,
            episode_dense_enabled: None,
            fact_dense_enabled: None,
            embed_task_prefix_enabled: None,
            proximity_weight: None,
            temporal_weight: None,
            rerank_candidate_max_chars: None,
            contradiction_detection_enabled: None,
            prior_turn_replay_depth: None,
            extraction_arm_budget_ms: None,
            secret_scan_enabled: None,
            secret_scan_mode: None,
        }
    }
}

/// Overrides that set nothing.
pub open spec fn no_overrides() -> PipelineConfigOverrides {
    PipelineConfigOverrides {
        content_stream_weight: None,
        graph_degree_weight: None,
        rrf_k: None,
        episode_dense_enabled: None,
        fact_dense_enabled: None,
        embed_task_prefix_enabled: None,
        proximity_weight: None,
        temporal_weight: None,
        rerank_candidate_max_chars: None,
        contradiction_detection_enabled: None,
        prior_turn_replay_depth: None,
        extraction_arm_budget_ms: None,
        secret_scan_enabled: None,
        secret_scan_mode: None,
    }
}

/// Overrides that set nothing change nothing.
pub proof fn law_empty_overlay_is_no_op(c: PipelineConfig)
    ensures
        overlay(no_overrides(), c) == c,
{
}

/// Applying the same overrides a second time changes nothing more.
pub proof fn law_overlay_is_idempotent(o: PipelineConfigOverrides, c: PipelineConfig)
    ensures
        overlay(o, overlay(o, c)) == overlay(o, c),
{
}

/// Setting by setting: an explicit value is the one that counts, whatever it is, and a setting
/// that is not there leaves the earlier value.
pub proof fn law_explicit_settings_win(o: PipelineConfigOverrides, c: PipelineConfig)
    ensures
        ({
            let r = overlay(o, c);
            &&& o.content_stream_weight matches Some(v) ==> r.search.content_stream_weight == v
            &&& o.content_stream_weight is None ==> r.search.content_stream_weight == c.search.content_stream_weight
            &&& o.graph_degree_weight matches Some(v) ==> r.search.graph_degree_weight == v
            &&& o.graph_degree_weight is None ==> r.search.graph_degree_weight == c.search.graph_degree_weight
            &&& o.rrf_k matches Some(v) ==> r.search.rrf_k == v
            &&& o.rrf_k is None ==> r.search.rrf_k == c.search.rrf_k
            &&& o.episode_dense_enabled matches Some(v) ==> r.search.episode_dense_enabled == v
            &&& o.episode_dense_enabled is None ==> r.search.episode_dense_enabled == c.search.episode_dense_enabled
            &&& o.fact_dense_enabled matches Some(v) ==> r.search.fact_dense_enabled == v
            &&& o.fact_dense_enabled is None ==> r.search.fact_dense_enabled == c.search.fact_dense_enabled
            &&& o.embed_task_prefix_enabled matches Some(v) ==> r.search.embed_task_prefix_enabled == v
            &&& o.embed_task_prefix_enabled is None ==> r.search.embed_task_prefix_enabled == c.search.embed_task_prefix_enabled
            &&& o.proximity_weight matches Some(v) ==> r.search.proximity_weight == v
            &&& o.proximity_weight is None ==> r.search.proximity_weight == c.search.proximity_weight
            &&& o.temporal_weight matches Some(v) ==> r.search.temporal_weight == v
            &&& o.temporal_weight is None ==> r.search.temporal_weight == c.search.temporal_weight
            &&& o.rerank_candidate_max_chars matches Some(v) ==> r.search.rerank_candidate_max_chars == v
            &&& o.rerank_candidate_max_chars is None ==> r.search.rerank_candidate_max_chars == c.search.rerank_candidate_max_chars
            &&& o.contradiction_detection_enabled matches Some(v) ==> r.contradiction_detection_enabled == v
            &&& o.contradiction_detection_enabled is None ==> r.contradiction_detection_enabled == c.contradiction_detection_enabled
            &&& o.prior_turn_replay_depth matches Some(v) ==> r.prior_turn_replay_depth == v
            &&& o.prior_turn_replay_depth is None ==> r.prior_turn_replay_depth == c.prior_turn_replay_depth
            &&& o.extraction_arm_budget_ms matches Some(v) ==> r.extraction_arm_budget_ms == v
            &&& o.extraction_arm_budget_ms is None ==> r.extraction_arm_budget_ms == c.extraction_arm_budget_ms
            &&& o.secret_scan_enabled matches Some(v) ==> r.secret_scan.enabled == v
            &&& o.secret_scan_enabled is None ==> r.secret_scan.enabled == c.secret_scan.enabled
            &&& o.secret_scan_mode matches Some(v) ==> r.secret_scan.mode == v
            &&& o.secret_scan_mode is None ==> r.secret_scan.mode == c.secret_scan.mode
        }),
{
}

/// Whatever the overrides cannot set is left as it was.
pub proof fn law_overlay_leaves_the_rest(o: PipelineConfigOverrides, c: PipelineConfig)
    ensures
        ({
            let r = overlay(o, c);
            &&& r.search.bm25_weight == c.search.bm25_weight
            &&& r.search.vector_weight == c.search.vector_weight
            &&& r.search.top_k == c.search.top_k
            &&& r.search.temporal_decay_lambda == c.search.temporal_decay_lambda
            &&& r.search.floor_threshold == c.search.floor_threshold
            &&& r.search.expansion_hop_bound == c.search.expansion_hop_bound
            &&& r.search.expansion_fan_out_cap == c.search.expansion_fan_out_cap
            &&& r.search.neighbour_score_decay == c.search.neighbour_score_decay
            &&& r.search.proximity_hop_bound == c.search.proximity_hop_bound
            &&& r.search.proximity_fan_out_cap == c.search.proximity_fan_out_cap
            &&& r.embedding_dim == c.embedding_dim
            &&& r.extraction_window == c.extraction_window
            &&& r.minhash == c.minhash
            &&& r.entropy == c.entropy
            &&& r.allowed_entity_types == c.allowed_entity_types
            &&& r.allowed_edge_types == c.allowed_edge_types
            &&& r.excluded_entity_types == c.excluded_entity_types
            &&& r.cache_ttl == c.cache_ttl
            &&& r.cache_max_entries == c.cache_max_entries
            &&& r.extraction_concurrency == c.extraction_concurrency
            &&& r.resolution_block_k == c.resolution_block_k
            &&& r.resolution_min_cosine == c.resolution_min_cosine
            &&& r.resolution_strategy == c.resolution_strategy
            &&& r.resolution_batch_max_entities == c.resolution_batch_max_entities
        }),
{
}

}
