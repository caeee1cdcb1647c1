//! The fluent builder of the pipeline configuration.

use vstd::prelude::*;
use vstd::string::StringExecFns;
use std::time::Duration;
use crate::clock::nanos_of;
use crate::config::pipeline::{
    EmbeddingDim, PipelineConfig, ResolutionStrategy, DEFAULT_CONTRADICTION_DETECTION_ENABLED,
};
use crate::config::scan_configs::{
    EntropyConfig, ExtractionWindowConfig, MinHashConfig, SecretScanConfig, SecretScanMode,
    DENSITY_THRESHOLD_BITS, ENTROPY_THRESHOLD_BITS, JACCARD_THRESHOLD_BITS,
};
use crate::config::search::{default_search, SearchConfig};
use crate::error::Error;
use crate::ieee::{Binary32, Binary64, Shown64};
use crate::text::owned;

verus! {

/// The configuration before any setting is changed: its scalar parts.
pub open spec fn is_default_config(c: PipelineConfig) -> bool {
    &&& c.embedding_dim == EmbeddingDim(384)
    &&& c.extraction_window == (ExtractionWindowConfig {
        min_words: 100,
        density_threshold: Binary64 { bits: DENSITY_THRESHOLD_BITS },
        max_words: 300,
        overlap_words: 50,
    })
    &&& c.minhash == (MinHashConfig {
        num_permutations: 32,
        shingle_size: 3,
        band_size: 4,
        jaccard_threshold: Binary64 { bits: JACCARD_THRESHOLD_BITS },
    })
    &&& c.entropy == (EntropyConfig {
        min_name_length: 6,
        min_token_count: 2,
        entropy_threshold: Binary64 { bits: ENTROPY_THRESHOLD_BITS },
    })
    &&& c.secret_scan == (SecretScanConfig { enabled: true, mode: SecretScanMode::FlagOnly })
    &&& c.search == default_search()
    &&& c.allowed_entity_types@.len() == 0
    &&& c.allowed_edge_types@.len() == 0
    &&& c.excluded_entity_types@.len() == 0
    &&& nanos_of(c.cache_ttl) == 300_000_000_000
    &&& c.cache_max_entries == 1000
    &&& c.extraction_arm_budget_ms == 30_000
    &&& c.prior_turn_replay_depth == 10
    &&& c.extraction_concurrency == 5
    &&& c.resolution_block_k == 10
    &&& c.resolution_min_cosine == Binary32::zero_value()
    &&& c.resolution_strategy == ResolutionStrategy::Batched
    &&& c.resolution_batch_max_entities == 32
    &&& c.contradiction_detection_enabled == DEFAULT_CONTRADICTION_DETECTION_ENABLED
}

/// The number lies in `(0, 1]`.
pub open spec fn positive_unit(v: Binary64) -> bool {
    Binary64::zero_value().lt(v) && v.le(Binary64::one_value())
}

fn is_positive_unit(v: Binary64) -> (r: bool)
    ensures
        r == positive_unit(v),
{
    Binary64::zero().less_than(v) && v.at_most(Binary64::one())
}

/// What is wrong with a configuration, the first fault in this order: the Jaccard
/// threshold, the embedding dimension, the shortest chunk, the longest chunk, the density
/// threshold.
pub enum ConfigFault {
    Jaccard,
    EmbeddingDim,
    MinWords,
    Window,
    Density,
}

/// The first fault of a configuration.
pub open spec fn first_fault(c: PipelineConfig) -> Option<ConfigFault> {
    if !positive_unit(c.minhash.jaccard_threshold) {
        Some(ConfigFault::Jaccard)
    } else if c.embedding_dim.0 == 0 {
        Some(ConfigFault::EmbeddingDim)
    } else if c.extraction_window.min_words == 0 {
        Some(ConfigFault::MinWords)
    } else if c.extraction_window.max_words < c.extraction_window.min_words {
        Some(ConfigFault::Window)
    } else if !positive_unit(c.extraction_window.density_threshold) {
        Some(ConfigFault::Density)
    } else {
        None
    }
}

/// The message that reports the threshold `field`, shown as `text`.
pub open spec fn out_of_unit(field: Seq<char>, text: Seq<char>) -> Seq<char> {
    field + " must be in (0.0, 1.0], got "@ + text
}

/// Reports a threshold.
fn unit_error(field: &str, text: &String) -> (r: Error)
    ensures
        r matches Error::Config(m) && m@ == out_of_unit(field@, text@),
{
    let mut message: String = owned(field);
    message.append(" must be in (0.0, 1.0], got ");
    message.append(text.as_str());
    Error::Config(message)
}

/// The error that reports a fault of `c`, whose thresholds are shown as `texts`.
pub open spec fn reports_fault(
    e: Error,
    fault: ConfigFault,
    c: PipelineConfig,
    texts: ThresholdTexts,
) -> bool {
    match fault {
        ConfigFault::Jaccard => e matches Error::Config(m) && m@ == out_of_unit(
            "jaccard_threshold"@,
            texts.jaccard,
        ),
        ConfigFault::EmbeddingDim => e is EmbeddingDimZero,
        ConfigFault::MinWords => e matches Error::Config(m) && m@
            == "min_words must be greater than 0"@,
        ConfigFault::Window => e == (Error::TokenWindowInvalid {
            min: c.extraction_window.min_words,
            got: c.extraction_window.max_words,
        }),
        ConfigFault::Density => e matches Error::Config(m) && m@ == out_of_unit(
            "density_threshold"@,
            texts.density,
        ),
    }
}

/// How the two thresholds are shown.
pub struct ThresholdTexts {
    pub jaccard: Seq<char>,
    pub density: Seq<char>,
}

/// Fluent builder for [`PipelineConfig`].
pub struct PipelineConfigBuilder {
    inner: PipelineConfig,
    jaccard_text: String,
    density_text: String,
}

impl View for PipelineConfigBuilder {
    type V = PipelineConfig;

    closed spec fn view(&self) -> PipelineConfig {
        self.inner
    }
}

impl PipelineConfig {
    /// A builder that holds every default.
    pub fn builder() -> (r: PipelineConfigBuilder)
        ensures
            is_default_config(r@),
            r.texts().jaccard == "0.9"@,
            r.texts().density == "0.15"@,
    {
        PipelineConfigBuilder {
            inner: PipelineConfig {
                embedding_dim: EmbeddingDim::default(),
                extraction_window: ExtractionWindowConfig::default(),
                minhash: MinHashConfig::default(),
                entropy: EntropyConfig::default(),
                secret_scan: SecretScanConfig::default(),
                search: SearchConfig::default(),
                allowed_entity_types: Vec::new(),
                allowed_edge_types: Vec::new(),
                excluded_entity_types: Vec::new(),
                cache_ttl: Duration::from_secs(300),
                cache_max_entries: 1000,
                extraction_arm_budget_ms: 30_000,
                prior_turn_replay_depth: 10,
                extraction_concurrency: 5,
                resolution_block_k: 10,
                resolution_min_cosine: Binary32::zero(),
                resolution_strategy: ResolutionStrategy::default(),
                resolution_batch_max_entities: 32,
                contradiction_detection_enabled: DEFAULT_CONTRADICTION_DETECTION_ENABLED,
            },
            jaccard_text: owned("0.9"),
            density_text: owned("0.15"),
        }
    }
}

impl PipelineConfigBuilder {
    /// How the thresholds that were set are shown.
    pub closed spec fn texts(self) -> ThresholdTexts {
        ThresholdTexts { jaccard: self.jaccard_text@, density: self.density_text@ }
    }

    /// Sets the dimension of the embedding vectors.
    pub fn embedding_dim(self, dim: usize) -> (r: Self)
        ensures
            r@ == (PipelineConfig { embedding_dim: EmbeddingDim(dim), ..self@ }),
            r.texts() == self.texts(),
    {
        let mut b = self;
        b.inner.embedding_dim = EmbeddingDim(dim);
        b
    }

    /// Sets the length below which text is never split.
    pub fn min_words(self, v: usize) -> (r: Self)
        ensures
            r@ == (PipelineConfig {
                extraction_window: ExtractionWindowConfig { min_words: v, ..self@.extraction_window },
                ..self@
            }),
            r.texts() == self.texts(),
    {
        let mut b = self;
        b.inner.extraction_window.min_words = v;
        b
    }

    /// Sets the entity density above which a chunk is split.
    pub fn density_threshold(self, v: Shown64) -> (r: Self)
        ensures
            r@ == (PipelineConfig {
                extraction_window: ExtractionWindowConfig { density_threshold: v.value, ..self@.extraction_window },
                ..self@
            }),
            r.texts() == (ThresholdTexts { density: v.text@, ..self.texts() }),
    {
        let mut b = self;
        b.inner.extraction_window.density_threshold = v.value;
        b.density_text = v.text;
        b
    }

    /// Sets the longest chunk.
    pub fn max_words(self, v: usize) -> (r: Self)
        ensures
            r@ == (PipelineConfig {
                extraction_window: ExtractionWindowConfig { max_words: v, ..self@.extraction_window },
                ..self@
            }),
            r.texts() == self.texts(),
    {
        let mut b = self;
        b.inner.extraction_window.max_words = v;
        b
    }

    /// Sets the overlap of neighbouring chunks.
    pub fn overlap_words(self, v: usize) -> (r: Self)
        ensures
            r@ == (PipelineConfig {
                extraction_window: ExtractionWindowConfig { overlap_words: v, ..self@.extraction_window },
                ..self@
            }),
            r.texts() == self.texts(),
    {
        let mut b = self;
        b.inner.extraction_window.overlap_words = v;
        b
    }

    /// Sets the number of hash permutations.
    pub fn num_permutations(self, v: usize) -> (r: Self)
        ensures
            r@ == (PipelineConfig {
                minhash: MinHashConfig { num_permutations: v, ..self@.minhash },
                ..self@
            }),
            r.texts() == self.texts(),
    {
        let mut b = self;
        b.inner.minhash.num_permutations = v;
        b
    }

    /// Sets the characters of a shingle.
    pub fn shingle_size(self, v: usize) -> (r: Self)
        ensures
            r@ == (PipelineConfig {
                minhash: MinHashConfig { shingle_size: v, ..self@.minhash },
                ..self@
            }),
            r.texts() == self.texts(),
    {
        let mut b = self;
        b.inner.minhash.shingle_size = v;
        b
    }

    /// Sets the permutations of a band.
    pub fn band_size(self, v: usize) -> (r: Self)
        ensures
            r@ == (PipelineConfig {
                minhash: MinHashConfig { band_size: v, ..self@.minhash },
                ..self@
            }),
            r.texts() == self.texts(),
    {
        let mut b = self;
        b.inner.minhash.band_size = v;
        b
    }

    /// Sets the overlap from which two surface forms are one entity.
    pub fn jaccard_threshold(self, v: Shown64) -> (r: Self)
        ensures
            r@ == (PipelineConfig {
                minhash: MinHashConfig { jaccard_threshold: v.value, ..self@.minhash },
                ..self@
            }),
            r.texts() == (ThresholdTexts { jaccard: v.text@, ..self.texts() }),
    {
        let mut b = self;
        b.inner.minhash.jaccard_threshold = v.value;
        b.jaccard_text = v.text;
        b
    }

    /// Sets the shortest name that is hashed.
    pub fn min_name_length(self, v: usize) -> (r: Self)
        ensures
            r@ == (PipelineConfig {
                entropy: EntropyConfig { min_name_length: v, ..self@.entropy },
                ..self@
            }),
            r.texts() == self.texts(),
    {
        let mut b = self;
        b.inner.entropy.min_name_length = v;
        b
    }

    /// Sets the fewest words of a name that is hashed.
    pub fn min_token_count(self, v: usize) -> (r: Self)
        ensures
            r@ == (PipelineConfig {
                entropy: EntropyConfig { min_token_count: v, ..self@.entropy },
                ..self@
            }),
            r.texts() == self.texts(),
    {
        let mut b = self;
        b.inner.entropy.min_token_count = v;
        b
    }

    /// Sets the entropy below which a name carries no content.
    pub fn entropy_threshold(self, v: Binary64) -> (r: Self)
        ensures
            r@ == (PipelineConfig {
                entropy: EntropyConfig { entropy_threshold: v, ..self@.entropy },
                ..self@
            }),
            r.texts() == self.texts(),
    {
        let mut b = self;
        b.inner.entropy.entropy_threshold = v;
        b
    }

    /// Switches the secret scan on or off.
    pub fn secret_scan_enabled(self, v: bool) -> (r: Self)
        ensures
            r@ == (PipelineConfig {
                secret_scan: SecretScanConfig { enabled: v, ..self@.secret_scan },
                ..self@
            }),
            r.texts() == self.texts(),
    {
        let mut b = self;
        b.inner.secret_scan.enabled = v;
        b
    }

    /// Sets what the secret scan does with a hit.
    pub fn secret_scan_mode(self, mode: SecretScanMode) -> (r: Self)
        ensures
            r@ == (PipelineConfig {
                secret_scan: SecretScanConfig { mode: mode, ..self@.secret_scan },
                ..self@
            }),
            r.texts() == self.texts(),
    {
        let mut b = self;
        b.inner.secret_scan.mode = mode;
        b
    }

    /// Sets the weight of the full-text rank.
    pub fn bm25_weight(self, v: Binary64) -> (r: Self)
        ensures
            r@ == (PipelineConfig {
                search: SearchConfig { bm25_weight: v, ..self@.search },
                ..self@
            }),
            r.texts() == self.texts(),
    {
        let mut b = self;
        b.inner.search.bm25_weight = v;
        b
    }

    /// Sets the weight of the vector rank.
    pub fn vector_weight(self, v: Binary64) -> (r: Self)
        ensures
            r@ == (PipelineConfig {
                search: SearchConfig { vector_weight: v, ..self@.search },
                ..self@
            }),
            r.texts() == self.texts(),
    {
        let mut b = self;
        b.inner.search.vector_weight = v;
        b
    }

    /// Sets the constant of reciprocal rank fusion.
    pub fn rrf_k(self, v: usize) -> (r: Self)
        ensures
            r@ == (PipelineConfig {
                search: SearchConfig { rrf_k: v, ..self@.search },
                ..self@
            }),
            r.texts() == self.texts(),
    {
        let mut b = self;
        b.inner.search.rrf_k = v;
        b
    }

    /// Sets how many results are returned by default.
    pub fn top_k(self, v: usize) -> (r: Self)
        ensures
            r@ == (PipelineConfig {
                search: SearchConfig { top_k: v, ..self@.search },
                ..self@
            }),
            r.texts() == self.texts(),
    {
        let mut b = self;
        b.inner.search.top_k = v;
        b
    }

    /// Sets the weight of the content stream.
    pub fn content_stream_weight(self, v: Binary32) -> (r: Self)
        ensures
            r@ == (PipelineConfig {
                search: SearchConfig { content_stream_weight: v, ..self@.search },
                ..self@
            }),
            r.texts() == self.texts(),
    {
        let mut b = self;
        b.inner.search.content_stream_weight = v;
        b
    }

    /// Sets the weight of the degree bonus.
    pub fn graph_degree_weight(self, v: Binary32) -> (r: Self)
        ensures
            r@ == (PipelineConfig {
                search: SearchConfig { graph_degree_weight: v, ..self@.search },
                ..self@
            }),
            r.texts() == self.texts(),
    {
        let mut b = self;
        b.inner.search.graph_degree_weight = v;
        b
    }

    /// Switches the vector search over episodes on or off; off by default.
    pub fn episode_dense_enabled(self, v: bool) -> (r: Self)
        ensures
            r@ == (PipelineConfig {
                search: SearchConfig { episode_dense_enabled: v, ..self@.search },
                ..self@
            }),
            r.texts() == self.texts(),
    {
        let mut b = self;
        b.inner.search.episode_dense_enabled = v;
        b
    }

    /// Switches the vector search over facts on or off.
    pub fn fact_dense_enabled(self, v: bool) -> (r: Self)
        ensures
            r@ == (PipelineConfig {
                search: SearchConfig { fact_dense_enabled: v, ..self@.search },
                ..self@
            }),
            r.texts() == self.texts(),
    {
        let mut b = self;
        b.inner.search.fact_dense_enabled = v;
        b
    }

    /// Switches task prefixes of embedded texts on or off.
    pub fn embed_task_prefix_enabled(self, v: bool) -> (r: Self)
        ensures
            r@ == (PipelineConfig {
                search: SearchConfig { embed_task_prefix_enabled: v, ..self@.search },
                ..self@
            }),
            r.texts() == self.texts(),
    {
        let mut b = self;
        b.inner.search.embed_task_prefix_enabled = v;
        b
    }

    /// Sets the weight of the proximity bonus.
    pub fn proximity_weight(self, v: Binary32) -> (r: Self)
        ensures
            r@ == (PipelineConfig {
                search: SearchConfig { proximity_weight: v, ..self@.search },
                ..self@
            }),
            r.texts() == self.texts(),
    {
        let mut b = self;
        b.inner.search.proximity_weight = v;
        b
    }

    /// Sets the weight of the recency bonus.
    pub fn temporal_weight(self, v: Binary32) -> (r: Self)
        ensures
            r@ == (PipelineConfig {
                search: SearchConfig { temporal_weight: v, ..self@.search },
                ..self@
            }),
            r.texts() == self.texts(),
    {
        let mut b = self;
        b.inner.search.temporal_weight = v;
        b
    }

    /// Sets the hops of the proximity walk.
    pub fn proximity_hop_bound(self, v: u32) -> (r: Self)
        ensures
            r@ == (PipelineConfig {
                search: SearchConfig { proximity_hop_bound: v, ..self@.search },
                ..self@
            }),
            r.texts() == self.texts(),
    {
        let mut b = self;
        b.inner.search.proximity_hop_bound = v;
        b
    }

    /// Sets how much of a candidate the reranker sees.
    pub fn rerank_candidate_max_chars(self, v: usize) -> (r: Self)
        ensures
            r@ == (PipelineConfig {
                search: SearchConfig { rerank_candidate_max_chars: v, ..self@.search },
                ..self@
            }),
            r.texts() == self.texts(),
    {
        let mut b = self;
        b.inner.search.rerank_candidate_max_chars = v;
        b
    }

    /// Sets the entity types that are extracted.
    pub fn allowed_entity_types(self, v: Vec<String>) -> (r: Self)
        ensures
            r@ == (PipelineConfig { allowed_entity_types: v, ..self@ }),
            r.texts() == self.texts(),
    {
        let mut b = self;
        b.inner.allowed_entity_types = v;
        b
    }

    /// Sets the edge types that are resolved.
    pub fn allowed_edge_types(self, v: Vec<String>) -> (r: Self)
        ensures
            r@ == (PipelineConfig { allowed_edge_types: v, ..self@ }),
            r.texts() == self.texts(),
    {
        let mut b = self;
        b.inner.allowed_edge_types = v;
        b
    }

    /// Sets the entity types that are never extracted.
    pub fn excluded_entity_types(self, v: Vec<String>) -> (r: Self)
        ensures
            r@ == (PipelineConfig { excluded_entity_types: v, ..self@ }),
            r.texts() == self.texts(),
    {
        let mut b = self;
        b.inner.excluded_entity_types = v;
        b
    }

    /// Sets how long a cached entry stays fresh.
    pub fn cache_ttl(self, v: Duration) -> (r: Self)
        ensures
            r@ == (PipelineConfig { cache_ttl: v, ..self@ }),
            r.texts() == self.texts(),
    {
        let mut b = self;
        b.inner.cache_ttl = v;
        b
    }

    /// Sets the most entries of the cache.
    pub fn cache_max_entries(self, v: usize) -> (r: Self)
        ensures
            r@ == (PipelineConfig { cache_max_entries: v, ..self@ }),
            r.texts() == self.texts(),
    {
        let mut b = self;
        b.inner.cache_max_entries = v;
        b
    }

    /// Sets how many preceding episodes are replayed.
    pub fn prior_turn_replay_depth(self, depth: usize) -> (r: Self)
        ensures
            r@ == (PipelineConfig { prior_turn_replay_depth: depth, ..self@ }),
            r.texts() == self.texts(),
    {
        let mut b = self;
        b.inner.prior_turn_replay_depth = depth;
        b
    }

    /// Sets the wall-clock budget of one extraction arm.
    pub fn extraction_arm_budget_ms(self, ms: u64) -> (r: Self)
        ensures
            r@ == (PipelineConfig { extraction_arm_budget_ms: ms, ..self@ }),
            r.texts() == self.texts(),
    {
        let mut b = self;
        b.inner.extraction_arm_budget_ms = ms;
        b
    }

    /// Sets how many extraction calls run at the same time.
    pub fn extraction_concurrency(self, n: usize) -> (r: Self)
        ensures
            r@ == (PipelineConfig { extraction_concurrency: n, ..self@ }),
            r.texts() == self.texts(),
    {
        let mut b = self;
        b.inner.extraction_concurrency = n;
        b
    }

    /// Switches contradiction detection on or off.
    pub fn contradiction_detection_enabled(self, on: bool) -> (r: Self)
        ensures
            r@ == (PipelineConfig { contradiction_detection_enabled: on, ..self@ }),
            r.texts() == self.texts(),
    {
        let mut b = self;
        b.inner.contradiction_detection_enabled = on;
        b
    }

    /// Sets how many candidates an entity is compared with.
    pub fn resolution_block_k(self, k: usize) -> (r: Self)
        ensures
            r@ == (PipelineConfig { resolution_block_k: k, ..self@ }),
            r.texts() == self.texts(),
    {
        let mut b = self;
        b.inner.resolution_block_k = k;
        b
    }

    /// Sets the cosine floor of resolution, clamped to `[0, 1]`.
    pub fn resolution_min_cosine(self, floor: Binary32) -> (r: Self)
        ensures
            r@ == (PipelineConfig { resolution_min_cosine: floor.clamped(), ..self@ }),
            r.texts() == self.texts(),
    {
        let mut b = self;
        b.inner.resolution_min_cosine = floor.clamp_unit();
        b
    }

    /// Sets how ambiguous entities reach the model.
    pub fn resolution_strategy(self, v: ResolutionStrategy) -> (r: Self)
        ensures
            r@ == (PipelineConfig { resolution_strategy: v, ..self@ }),
            r.texts() == self.texts(),
    {
        let mut b = self;
        b.inner.resolution_strategy = v;
        b
    }

    /// Sets the most ambiguous entities of one window.
    pub fn resolution_batch_max_entities(self, v: usize) -> (r: Self)
        ensures
            r@ == (PipelineConfig { resolution_batch_max_entities: v, ..self@ }),
            r.texts() == self.texts(),
    {
        let mut b = self;
        b.inner.resolution_batch_max_entities = v;
        b
    }

    /// Checks the configuration and hands it out, or reports its first fault.
    pub fn build(self) -> (r: Result<PipelineConfig, Error>)
        ensures
            match first_fault(self@) {
                None => r == Ok::<PipelineConfig, Error>(self@),
                Some(fault) => r is Err && reports_fault(r->Err_0, fault, self@, self.texts()),
            },
            r is Ok <==> config_ok(self@),
            r matches Ok(c) ==> c == self@,
    {
        let c = &self.inner;
        let jt = c.minhash.jaccard_threshold;
        if !is_positive_unit(jt) {
            return Err(unit_error("jaccard_threshold", &self.jaccard_text));
        }
        if c.embedding_dim.0 == 0 {
            return Err(Error::EmbeddingDimZero);
        }
        if c.extraction_window.min_words == 0 {
            return Err(Error::Config(owned("min_words must be greater than 0")));
        }
        if c.extraction_window.max_words < c.extraction_window.min_words {
            return Err(
                Error::TokenWindowInvalid {
                    min: c.extraction_window.min_words,
                    got: c.extraction_window.max_words,
                },
            );
        }
        let dt = c.extraction_window.density_threshold;
        if !is_positive_unit(dt) {
            return Err(unit_error("density_threshold", &self.density_text));
        }
        Ok(self.inner)
    }
}

/// What every configuration that was built satisfies.
pub open spec fn config_ok(c: PipelineConfig) -> bool {
    &&& positive_unit(c.minhash.jaccard_threshold)
    &&& c.embedding_dim.0 > 0
    &&& 0 < c.extraction_window.min_words <= c.extraction_window.max_words
    &&& positive_unit(c.extraction_window.density_threshold)
}

/// Building succeeds exactly on configurations that satisfy every constraint, and the
/// default configuration is one of them.
pub proof fn law_build_accepts_exactly_valid(c: PipelineConfig)
    ensures
        first_fault(c) is None <==> config_ok(c),
        is_default_config(c) ==> config_ok(c),
{
}

/// A threshold is accepted exactly between zero, which is left out, and one: its pattern is
/// that of a number above zero and at most that of one.
pub proof fn law_threshold_is_in_the_unit(v: Binary64)
    ensures
        positive_unit(v) <==> 0 < v.bits <= 0x3ff0_0000_0000_0000,
{
    crate::ieee::law_order_of_patterns_64(Binary64::zero_value(), v);
    crate::ieee::law_order_of_patterns_64(v, Binary64::one_value());
}

/// The fault that is reported is there, none that comes before it is, and the error says which
/// it is and, of a number, what it was.
pub proof fn law_first_fault_is_reported(
    c: PipelineConfig,
    fault: ConfigFault,
    e: Error,
    texts: ThresholdTexts,
)
    requires
        first_fault(c) == Some(fault),
        reports_fault(e, fault, c, texts),
    ensures
        ({
            let jaccard_ok = positive_unit(c.minhash.jaccard_threshold);
            let dim_ok = c.embedding_dim.0 > 0;
            let min_ok = c.extraction_window.min_words > 0;
            let window_ok = c.extraction_window.min_words <= c.extraction_window.max_words;
            let density_ok = positive_unit(c.extraction_window.density_threshold);
            if !jaccard_ok {
                e matches Error::Config(m) && m@
                    == "jaccard_threshold"@ + " must be in (0.0, 1.0], got "@ + texts.jaccard
            } else if !dim_ok {
                e is EmbeddingDimZero
            } else if !min_ok {
                e matches Error::Config(m) && m@ == "min_words must be greater than 0"@
            } else if !window_ok {
                e matches Error::TokenWindowInvalid { min, got } && min
                    == c.extraction_window.min_words && got == c.extraction_window.max_words
            } else {
                !density_ok && (e matches Error::Config(m) && m@ == "density_threshold"@
                    + " must be in (0.0, 1.0], got "@ + texts.density)
            }
        }),
{
}

/// The defaults of the configuration, setting by setting. The thresholds are the patterns of
/// `0.15`, `0.9` and `1.5`.
pub proof fn law_defaults_are_these(c: PipelineConfig)
    requires
        is_default_config(c),
    ensures
        c.embedding_dim.0 == 384,
        c.extraction_window.min_words == 100,
        c.extraction_window.max_words == 300,
        c.extraction_window.overlap_words == 50,
        c.extraction_window.density_threshold.bits == 0x3fc3_3333_3333_3333,
        c.minhash.num_permutations == 32,
        c.minhash.shingle_size == 3,
        c.minhash.band_size == 4,
        c.minhash.jaccard_threshold.bits == 0x3fec_cccc_cccc_cccd,
        c.entropy.min_name_length == 6,
        c.entropy.min_token_count == 2,
        c.entropy.entropy_threshold.bits == 0x3ff8_0000_0000_0000,
        c.secret_scan.enabled,
        c.secret_scan.mode is FlagOnly,
        c.cache_max_entries == 1000,
        nanos_of(c.cache_ttl) == 300_000_000_000,
        c.extraction_arm_budget_ms == 30_000,
        c.prior_turn_replay_depth == 10,
        c.extraction_concurrency == 5,
        c.resolution_block_k == 10,
        c.resolution_min_cosine.bits == 0,
        c.resolution_strategy is Batched,
        c.resolution_batch_max_entities == 32,
        c.contradiction_detection_enabled,
        c.search.rrf_k == 1,
        c.search.top_k == 10,
        c.search.bm25_weight.bits == 0x3fe0_0000_0000_0000,
        c.search.vector_weight.bits == 0x3fe0_0000_0000_0000,
        c.search.graph_degree_weight.bits == 0x3d4c_cccd,
        c.search.temporal_weight.bits == 0,
        c.search.temporal_decay_lambda.bits == 0x3f84_7ae1_47ae_147b,
        c.search.floor_threshold.bits == 0,
        c.search.expansion_hop_bound == 1,
        c.search.expansion_fan_out_cap == 8,
        c.search.neighbour_score_decay.bits == 0x3f00_0000,
        c.search.proximity_weight.bits == 0,
        c.search.proximity_hop_bound == 2,
        c.search.proximity_fan_out_cap == 8,
        c.search.content_stream_weight.bits == 0x3f80_0000,
        !c.search.episode_dense_enabled,
        !c.search.fact_dense_enabled,
        !c.search.embed_task_prefix_enabled,
        c.search.rerank_candidate_max_chars == 0,
{
}

}
