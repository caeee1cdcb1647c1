//! The pipeline configuration: defaults, validation, overrides and the window variables.

use std::time::Duration;

use kremory::config::scan_configs::{parse_usize, WindowVariables};
use kremory::config::{
    Config, EmbeddingDim, ExtractionWindowConfig, PipelineConfig, PipelineConfigOverrides,
    ResolutionStrategy, SearchConfig, SecretScanMode,
};
use kremory::error::Error;
use kremory::ieee::{Binary32, Binary64, Shown64};

fn b64(v: f64) -> Binary64 {
    Binary64::from_bits(v.to_bits())
}

fn shown(v: f64) -> Shown64 {
    Shown64 { value: b64(v), text: v.to_string() }
}

fn b32(v: f32) -> Binary32 {
    Binary32::from_bits(v.to_bits())
}

fn f64_of(v: Binary64) -> f64 {
    f64::from_bits(v.to_bits())
}

fn f32_of(v: Binary32) -> f32 {
    f32::from_bits(v.to_bits())
}

fn expect_default_config_builds() {
    let result = PipelineConfig::builder().build();
    assert!(result.is_ok(), "default config should build without error");
}

#[test]
fn tests_test_default_config_builds() {
    expect_default_config_builds();
}

#[test]
fn config_test_default_config_builds() {
    expect_default_config_builds();
}

#[test]
fn tests_search_sweep_knob_defaults_unchanged() {
    let search = SearchConfig::default();
    assert_eq!(search.rrf_k, 1, "default RRF k must stay 1");
    assert_eq!(f32_of(search.content_stream_weight), 1.0,
        "default content_stream_weight must stay 1.0 (equal-weight fusion)"
    );
    // The builder must agree.
    let built = PipelineConfig::builder().build().unwrap().search;
    assert_eq!(built.rrf_k, 1);
    assert_eq!(f32_of(built.content_stream_weight), 1.0);
    // The setter threads the value.
    let tuned = PipelineConfig::builder()
        .content_stream_weight(b32(2.5))
        .rrf_k(1)
        .build()
        .unwrap()
        .search;
    assert_eq!(f32_of(tuned.content_stream_weight), 2.5);
    assert_eq!(tuned.rrf_k, 1);
}

fn expect_rerank_candidate_max_chars_defaults_to_zero_unlimited() {
    assert_eq!(
        SearchConfig::default().rerank_candidate_max_chars,
        0,
        "default must stay 0 (unlimited)"
    );
    let built = PipelineConfig::builder().build().unwrap().search;
    assert_eq!(built.rerank_candidate_max_chars, 0);
    let tuned = PipelineConfig::builder()
        .rerank_candidate_max_chars(512)
        .build()
        .unwrap()
        .search;
    assert_eq!(tuned.rerank_candidate_max_chars, 512);
}

#[test]
fn tests_rerank_candidate_max_chars_defaults_to_zero_unlimited() {
    expect_rerank_candidate_max_chars_defaults_to_zero_unlimited();
}

#[test]
fn config_rerank_candidate_max_chars_defaults_to_zero_unlimited() {
    expect_rerank_candidate_max_chars_defaults_to_zero_unlimited();
}

fn expect_proximity_weight_defaults_to_zero_off() {
    assert_eq!(f32_of(SearchConfig::default().proximity_weight),
        0.0,
        "default proximity_weight must stay 0.0 (axis off)"
    );
    assert_eq!(
        SearchConfig::default().proximity_hop_bound,
        2,
        "default proximity_hop_bound must stay 2"
    );
    assert_eq!(
        SearchConfig::default().proximity_fan_out_cap,
        8,
        "default proximity_fan_out_cap must match expansion_fan_out_cap's default (8)"
    );
    // The builder must agree.
    let built = PipelineConfig::builder().build().unwrap().search;
    assert_eq!(f32_of(built.proximity_weight), 0.0);
    // The setter threads the value.
    let tuned = PipelineConfig::builder()
        .proximity_weight(b32(0.2))
        .build()
        .unwrap()
        .search;
    assert_eq!(f32_of(tuned.proximity_weight), 0.2);
}

#[test]
fn tests_proximity_weight_defaults_to_zero_off() {
    expect_proximity_weight_defaults_to_zero_off();
}

#[test]
fn config_proximity_weight_defaults_to_zero_off() {
    expect_proximity_weight_defaults_to_zero_off();
}

fn expect_invalid_jaccard_rejected() {
    let result = PipelineConfig::builder().jaccard_threshold(shown(2.0)).build();
    assert!(result.is_err(), "jaccard_threshold > 1.0 must be rejected");
    let msg = result.unwrap_err().message();
    assert!(
        msg.contains("jaccard_threshold"),
        "error should mention field name"
    );
}

#[test]
fn tests_test_invalid_jaccard_rejected() {
    expect_invalid_jaccard_rejected();
}

#[test]
fn config_test_invalid_jaccard_rejected() {
    expect_invalid_jaccard_rejected();
}

fn expect_invalid_jaccard_zero_rejected() {
    let result = PipelineConfig::builder().jaccard_threshold(shown(0.0)).build();
    assert!(result.is_err(), "jaccard_threshold = 0.0 must be rejected");
    let msg = result.unwrap_err().message();
    assert!(
        msg.contains("jaccard_threshold"),
        "error should mention field name"
    );
}

#[test]
fn tests_test_invalid_jaccard_zero_rejected() {
    expect_invalid_jaccard_zero_rejected();
}

#[test]
fn config_test_invalid_jaccard_zero_rejected() {
    expect_invalid_jaccard_zero_rejected();
}

fn expect_weights_accept_any_positive_values() {
    let result = PipelineConfig::builder()
        .bm25_weight(b64(0.7))
        .vector_weight(b64(0.3))
        .build();
    assert!(
        result.is_ok(),
        "RRF weights are independent multipliers; they need not sum to 1.0"
    );

    let result2 = PipelineConfig::builder()
        .bm25_weight(b64(2.0))
        .vector_weight(b64(1.0))
        .build();
    assert!(result2.is_ok(), "any positive values accepted");
}

#[test]
fn tests_test_weights_accept_any_positive_values() {
    expect_weights_accept_any_positive_values();
}

#[test]
fn config_test_weights_accept_any_positive_values() {
    expect_weights_accept_any_positive_values();
}

fn expect_invalid_embedding_dim_rejected() {
    let result = PipelineConfig::builder().embedding_dim(0).build();
    assert!(result.is_err(), "embedding_dim = 0 must be rejected");
    let msg = result.unwrap_err().message();
    assert!(
        msg.contains("embedding_dim"),
        "error should mention field name"
    );
}

#[test]
fn tests_test_invalid_embedding_dim_rejected() {
    expect_invalid_embedding_dim_rejected();
}

#[test]
fn config_test_invalid_embedding_dim_rejected() {
    expect_invalid_embedding_dim_rejected();
}

fn expect_invalid_min_tokens_rejected() {
    let result = PipelineConfig::builder().min_words(0).build();
    assert!(result.is_err(), "min_words = 0 must be rejected");
    let msg = result.unwrap_err().message();
    assert!(msg.contains("min_words"), "error should mention field name");
}

#[test]
fn tests_test_invalid_min_tokens_rejected() {
    expect_invalid_min_tokens_rejected();
}

#[test]
fn config_test_invalid_min_tokens_rejected() {
    expect_invalid_min_tokens_rejected();
}

fn expect_max_less_than_min_rejected() {
    let result = PipelineConfig::builder()
        .min_words(800)
        .max_words(400)
        .build();
    assert!(result.is_err(), "max_words < min_words must be rejected");
    let msg = result.unwrap_err().message();
    assert!(
        msg.contains("max_words") || msg.contains("min_words"),
        "error should mention word-window fields"
    );
}

#[test]
fn tests_test_max_less_than_min_rejected() {
    expect_max_less_than_min_rejected();
}

#[test]
fn config_test_max_less_than_min_rejected() {
    expect_max_less_than_min_rejected();
}

fn expect_custom_config_builds() {
    let cfg = PipelineConfig::builder()
        .embedding_dim(768)
        .min_words(200)
        .max_words(600)
        .density_threshold(shown(0.2))
        .num_permutations(64)
        .shingle_size(4)
        .band_size(8)
        .jaccard_threshold(shown(0.85))
        .min_name_length(4)
        .min_token_count(1)
        .entropy_threshold(b64(1.0))
        .bm25_weight(b64(0.7))
        .vector_weight(b64(0.3))
        .rrf_k(30)
        .top_k(5)
        .cache_ttl(Duration::from_secs(60))
        .cache_max_entries(500)
        .build()
        .expect("custom config should build");

    assert_eq!(cfg.embedding_dim, EmbeddingDim(768));
    assert_eq!(cfg.extraction_window.min_words, 200);
    assert_eq!(cfg.extraction_window.max_words, 600);
    assert!((f64_of(cfg.extraction_window.density_threshold) - 0.2).abs() < 1e-12);
    assert_eq!(cfg.minhash.num_permutations, 64);
    assert_eq!(cfg.minhash.shingle_size, 4);
    assert_eq!(cfg.minhash.band_size, 8);
    assert!((f64_of(cfg.minhash.jaccard_threshold) - 0.85).abs() < 1e-12);
    assert_eq!(cfg.entropy.min_name_length, 4);
    assert_eq!(cfg.entropy.min_token_count, 1);
    assert!((f64_of(cfg.entropy.entropy_threshold) - 1.0).abs() < 1e-12);
    assert!((f64_of(cfg.search.bm25_weight) - 0.7).abs() < 1e-12);
    assert!((f64_of(cfg.search.vector_weight) - 0.3).abs() < 1e-12);
    assert_eq!(cfg.search.rrf_k, 30);
    assert_eq!(cfg.search.top_k, 5);
    assert_eq!(cfg.cache_ttl, Duration::from_secs(60));
    assert_eq!(cfg.cache_max_entries, 500);
}

#[test]
fn tests_test_custom_config_builds() {
    expect_custom_config_builds();
}

#[test]
fn config_test_custom_config_builds() {
    expect_custom_config_builds();
}

#[test]
fn tests_test_default_values_correct() {
    let cfg = PipelineConfig::builder()
        .build()
        .expect("default config should build");

    assert_eq!(cfg.embedding_dim, EmbeddingDim(384));
    assert_eq!(cfg.extraction_window.min_words, 100);
    assert!((f64_of(cfg.extraction_window.density_threshold) - 0.15).abs() < 1e-12);
    assert_eq!(cfg.extraction_window.max_words, 300);
    assert_eq!(cfg.minhash.num_permutations, 32);
    assert_eq!(cfg.minhash.shingle_size, 3);
    assert_eq!(cfg.minhash.band_size, 4);
    assert!((f64_of(cfg.minhash.jaccard_threshold) - 0.9).abs() < 1e-12);
    assert_eq!(cfg.entropy.min_name_length, 6);
    assert_eq!(cfg.entropy.min_token_count, 2);
    assert!((f64_of(cfg.entropy.entropy_threshold) - 1.5).abs() < 1e-12);
    assert!((f64_of(cfg.search.bm25_weight) - 0.5).abs() < 1e-12);
    assert!((f64_of(cfg.search.vector_weight) - 0.5).abs() < 1e-12);
    assert_eq!(cfg.search.rrf_k, 1);
    assert_eq!(cfg.search.top_k, 10);
    assert_eq!(cfg.cache_ttl, Duration::from_secs(300));
    assert_eq!(cfg.cache_max_entries, 1000);
}

fn expect_ontology_config() {
    let allowed = vec!["Person".to_string(), "Organization".to_string()];
    let excluded = vec!["StopWord".to_string()];
    let edges = vec!["WORKS_AT".to_string()];

    let cfg = PipelineConfig::builder()
        .allowed_entity_types(allowed.clone())
        .excluded_entity_types(excluded.clone())
        .allowed_edge_types(edges.clone())
        .build()
        .expect("ontology config should build");

    assert_eq!(cfg.allowed_entity_types, allowed);
    assert_eq!(cfg.excluded_entity_types, excluded);
    assert_eq!(cfg.allowed_edge_types, edges);

    // Verify that allowed and excluded are independent — a type can
    // appear in excluded without being in allowed.
    assert!(!cfg.allowed_entity_types.contains(&"StopWord".to_string()));
    assert!(cfg.excluded_entity_types.contains(&"StopWord".to_string()));
}

#[test]
fn tests_test_ontology_config() {
    expect_ontology_config();
}

#[test]
fn config_test_ontology_config() {
    expect_ontology_config();
}

fn expect_extraction_arm_budget_ms_default() {
    let cfg = PipelineConfig::builder()
        .build()
        .expect("default config should build");
    assert_eq!(
        cfg.extraction_arm_budget_ms, 30_000,
        "default extraction_arm_budget_ms must be 30_000 (production fail-fast)"
    );
}

#[test]
fn tests_test_extraction_arm_budget_ms_default() {
    expect_extraction_arm_budget_ms_default();
}

#[test]
fn config_test_extraction_arm_budget_ms_default() {
    expect_extraction_arm_budget_ms_default();
}

fn expect_extraction_arm_budget_ms_custom() {
    let cfg = PipelineConfig::builder()
        .extraction_arm_budget_ms(180_000)
        .build()
        .expect("custom extraction_arm_budget_ms should build");
    assert_eq!(
        cfg.extraction_arm_budget_ms, 180_000,
        "extraction_arm_budget_ms builder method must propagate the custom value"
    );
}

#[test]
fn tests_test_extraction_arm_budget_ms_custom() {
    expect_extraction_arm_budget_ms_custom();
}

#[test]
fn config_test_extraction_arm_budget_ms_custom() {
    expect_extraction_arm_budget_ms_custom();
}

fn no_variables() -> WindowVariables {
    WindowVariables {
        max_words: None,
        max_tokens: None,
        min_words: None,
        min_tokens: None,
        overlap_words: None,
        overlap_tokens: None,
        density_threshold: None,
    }
}

#[test]
fn window_defaults_without_variables() {
    let w = ExtractionWindowConfig::from_env(&no_variables());
    assert_eq!(w.min_words, 100);
    assert_eq!(w.max_words, 300);
    assert_eq!(w.overlap_words, 50);
    assert_eq!(f64_of(w.density_threshold), 0.15);
}

#[test]
fn window_variables_win_over_legacy_ones() {
    let mut vars = no_variables();
    vars.max_words = Some("420".to_owned());
    vars.max_tokens = Some("999".to_owned());
    vars.min_words = Some("not a number".to_owned());
    vars.min_tokens = Some("+80".to_owned());
    vars.overlap_words = Some("".to_owned());
    vars.density_threshold = Some(b64(0.3));
    let w = ExtractionWindowConfig::from_env(&vars);
    assert_eq!(w.max_words, 420);
    assert_eq!(w.min_words, 80);
    assert_eq!(w.overlap_words, 50);
    assert_eq!(f64_of(w.density_threshold), 0.3);
}

#[test]
fn parse_usize_agrees_with_std() {
    for s in ["", "+", "0", "+7", "-1", "007", "12a", " 1", "18446744073709551615", "18446744073709551616", "++1"] {
        assert_eq!(parse_usize(s), s.parse::<usize>().ok(), "on {s:?}");
    }
}

#[test]
fn build_reports_each_fault() {
    let nan = PipelineConfig::builder().jaccard_threshold(shown(f64::NAN)).build();
    assert!(matches!(nan, Err(Error::Config(_))));
    assert_eq!(
        nan.unwrap_err().message(),
        "jaccard_threshold must be in (0.0, 1.0], got NaN"
    );
    assert_eq!(
        PipelineConfig::builder().jaccard_threshold(shown(2.0)).build().unwrap_err().message(),
        "jaccard_threshold must be in (0.0, 1.0], got 2"
    );
    assert!(matches!(
        PipelineConfig::builder().embedding_dim(0).build(),
        Err(Error::EmbeddingDimZero)
    ));
    let min = PipelineConfig::builder().min_words(0).build();
    assert!(matches!(min, Err(Error::Config(_))));
    assert_eq!(min.unwrap_err().message(), "min_words must be greater than 0");
    let window = PipelineConfig::builder().min_words(800).max_words(400).build();
    assert!(matches!(window, Err(Error::TokenWindowInvalid { min: 800, got: 400 })));
    assert_eq!(
        window.unwrap_err().message(),
        "max_words must be at least min_words (800), got 400"
    );
    let density = PipelineConfig::builder().density_threshold(shown(1.5)).build();
    assert_eq!(
        density.unwrap_err().message(),
        "density_threshold must be in (0.0, 1.0], got 1.5"
    );
    assert!(PipelineConfig::builder().density_threshold(shown(-0.0)).build().is_err());
    assert!(PipelineConfig::builder().density_threshold(shown(1.0)).build().is_ok());
    assert!(PipelineConfig::builder()
        .density_threshold(shown(f64::MIN_POSITIVE / 2.0))
        .build()
        .is_ok());
}

#[test]
fn build_reports_the_first_of_several_faults() {
    let r = PipelineConfig::builder()
        .min_words(0)
        .embedding_dim(0)
        .jaccard_threshold(shown(0.0))
        .build();
    assert_eq!(r.unwrap_err().message(), "jaccard_threshold must be in (0.0, 1.0], got 0");
}

#[test]
fn every_setter_reaches_its_field() {
    let c = PipelineConfig::builder()
        .overlap_words(7)
        .graph_degree_weight(b32(0.25))
        .episode_dense_enabled(true)
        .fact_dense_enabled(true)
        .embed_task_prefix_enabled(true)
        .temporal_weight(b32(0.5))
        .proximity_hop_bound(3)
        .prior_turn_replay_depth(4)
        .extraction_concurrency(9)
        .contradiction_detection_enabled(false)
        .resolution_block_k(11)
        .resolution_min_cosine(b32(0.4))
        .resolution_strategy(ResolutionStrategy::Pairwise)
        .resolution_batch_max_entities(12)
        .secret_scan_enabled(false)
        .secret_scan_mode(SecretScanMode::Redact)
        .build()
        .unwrap();
    assert_eq!(c.extraction_window.overlap_words, 7);
    assert_eq!(f32_of(c.search.graph_degree_weight), 0.25);
    assert!(c.search.episode_dense_enabled);
    assert!(c.search.fact_dense_enabled);
    assert!(c.search.embed_task_prefix_enabled);
    assert_eq!(f32_of(c.search.temporal_weight), 0.5);
    assert_eq!(c.search.proximity_hop_bound, 3);
    assert_eq!(c.prior_turn_replay_depth, 4);
    assert_eq!(c.extraction_concurrency, 9);
    assert!(!c.contradiction_detection_enabled);
    assert_eq!(c.resolution_block_k, 11);
    assert_eq!(f32_of(c.resolution_min_cosine), 0.4);
    assert_eq!(c.resolution_strategy, ResolutionStrategy::Pairwise);
    assert_eq!(c.resolution_batch_max_entities, 12);
    assert!(!c.secret_scan.enabled);
    assert_eq!(c.secret_scan.mode, SecretScanMode::Redact);
}

#[test]
fn empty_overrides_change_nothing() {
    let plain = PipelineConfig::builder().rrf_k(17).top_k(3);
    let overlaid = PipelineConfigOverrides::default().apply(PipelineConfig::builder().rrf_k(17).top_k(3));
    assert_eq!(
        format!("{:?}", overlaid.build().unwrap()),
        format!("{:?}", plain.build().unwrap())
    );
}

#[test]
fn overrides_win_and_twice_is_once() {
    let mut o = PipelineConfigOverrides::default();
    o.rrf_k = Some(60);
    o.content_stream_weight = Some(b32(2.0));
    o.secret_scan_enabled = Some(false);
    o.extraction_arm_budget_ms = Some(5);
    let once = o.apply(PipelineConfig::builder().rrf_k(5).top_k(3)).build().unwrap();
    assert_eq!(once.search.rrf_k, 60);
    assert_eq!(once.search.top_k, 3);
    assert_eq!(f32_of(once.search.content_stream_weight), 2.0);
    assert!(!once.secret_scan.enabled);
    assert_eq!(once.extraction_arm_budget_ms, 5);
    let twice = o.apply(o.apply(PipelineConfig::builder().rrf_k(5).top_k(3))).build().unwrap();
    assert_eq!(format!("{once:?}"), format!("{twice:?}"));
}

#[test]
fn telemetry_prefixes_are_unset_by_default() {
    let c = Config::default();
    assert_eq!(c.metrics_prefix, None);
    assert_eq!(c.span_prefix, None);
}

#[test]
fn vector_search_over_episodes_is_off_by_default() {
    assert!(!SearchConfig::default().episode_dense_enabled);
    let built = PipelineConfig::builder().build().unwrap();
    assert!(!built.search.episode_dense_enabled);
    assert!(!built.search.fact_dense_enabled);
    assert!(!built.search.embed_task_prefix_enabled);
}
