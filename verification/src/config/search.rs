//! Hybrid search weighting.

use vstd::prelude::*;
use crate::ieee::{Binary32, Binary64};

verus! {

/// Hybrid search parameters: how full-text and vector ranks are combined and how far
/// the results are expanded.
#[derive(Debug, Clone, Copy)]
pub struct SearchConfig {
    /// Weight of the full-text rank in fusion.
    pub bm25_weight: Binary64,
    /// Weight of the vector rank in fusion.
    pub vector_weight: Binary64,
    /// Constant of reciprocal rank fusion.
    pub rrf_k: usize,
    /// Results returned when the caller names no limit.
    pub top_k: usize,
    /// Weight of the additive degree bonus.
    pub graph_degree_weight: Binary32,
    /// Weight of the recency bonus; zero switches the axis off.
    pub temporal_weight: Binary32,
    /// Decay rate of the recency bonus.
    pub temporal_decay_lambda: Binary64,
    /// Score that a seed must reach to be returned; zero keeps every seed.
    pub floor_threshold: Binary32,
    /// Hops of the expansion.
    pub expansion_hop_bound: u32,
    /// Most neighbours that one seed brings in.
    pub expansion_fan_out_cap: usize,
    /// Share of a seed's score that its neighbours get.
    pub neighbour_score_decay: Binary32,
    /// Weight of the proximity bonus; zero switches the axis off.
    pub proximity_weight: Binary32,
    /// Hops of the proximity walk.
    pub proximity_hop_bound: u32,
    /// Most neighbours of one step of the proximity walk.
    pub proximity_fan_out_cap: usize,
    /// Weight of the content stream in fusion.
    pub content_stream_weight: Binary32,
    /// Whether episodes are embedded and searched by vector. Off by default: only their
    /// text is searched until it is switched on.
    pub episode_dense_enabled: bool,
    /// Whether facts are searched by vector. Off by default.
    pub fact_dense_enabled: bool,
    /// Whether texts are embedded with a task prefix. Off by default.
    pub embed_task_prefix_enabled: bool,
    /// Characters of a candidate that the reranker sees; zero is unlimited.
    pub rerank_candidate_max_chars: usize,
}

/// The default search parameters. Bit patterns: `0.5`, `0.05`, `0.01`, `0.0`, `1.0`.
pub open spec fn default_search() -> SearchConfig {
    SearchConfig {
        bm25_weight: Binary64 { bits: 0x3fe0_0000_0000_0000 },
        vector_weight: Binary64 { bits: 0x3fe0_0000_0000_0000 },
        rrf_k: 1,
        top_k: 10,
        graph_degree_weight: Binary32 { bits: 0x3d4c_cccd },
        temporal_weight: Binary32 { bits: 0x0000_0000 },
        temporal_decay_lambda: Binary64 { bits: 0x3f84_7ae1_47ae_147b },
        floor_threshold: Binary32 { bits: 0x0000_0000 },
        expansion_hop_bound: 1,
        expansion_fan_out_cap: 8,
        neighbour_score_decay: Binary32 { bits: 0x3f00_0000 },
        proximity_weight: Binary32 { bits: 0x0000_0000 },
        proximity_hop_bound: 2,
        proximity_fan_out_cap: 8,
        content_stream_weight: Binary32 { bits: 0x3f80_0000 },
        episode_dense_enabled: false,
        fact_dense_enabled: false,
        embed_task_prefix_enabled: false,
        rerank_candidate_max_chars: 0,
    }
}

impl Default for SearchConfig {
    fn default() -> (r: Self)
        ensures
            r == default_search(),
    {
        SearchConfig {
            bm25_weight: Binary64 { bits: 0x3fe0_0000_0000_0000 },
            vector_weight: Binary64 { bits: 0x3fe0_0000_0000_0000 },
            rrf_k: 1,
            top_k: 10,
            graph_degree_weight: Binary32 { bits: 0x3d4c_cccd },
            temporal_weight: Binary32 { bits: 0x0000_0000 },
            temporal_decay_lambda: Binary64 { bits: 0x3f84_7ae1_47ae_147b },
            floor_threshold: Binary32 { bits: 0x0000_0000 },
            expansion_hop_bound: 1,
            expansion_fan_out_cap: 8,
            neighbour_score_decay: Binary32 { bits: 0x3f00_0000 },
            proximity_weight: Binary32 { bits: 0x0000_0000 },
            proximity_hop_bound: 2,
            proximity_fan_out_cap: 8,
            content_stream_weight: Binary32 { bits: 0x3f80_0000 },
            episode_dense_enabled: false,
            fact_dense_enabled: false,
            embed_task_prefix_enabled: false,
            rerank_candidate_max_chars: 0,
        }
    }
}

}
