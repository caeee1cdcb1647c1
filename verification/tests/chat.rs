//! What is recorded of a chat call.

use autoagents_llm::error::{GuardrailPhase, LLMError};
use kremory::chat_tracking::{
    error_type_label, llm_error_type, ChatUsage, LlmErrorKind, RateLookup,
    TokenTrackingChatProvider, WarningRegistry,
};

fn tracker(provider: &str, model: &str) -> TokenTrackingChatProvider<u8> {
    TokenTrackingChatProvider::new(0, provider.to_owned(), model.to_owned())
}

fn usage(input: u32, output: u32) -> Result<Option<ChatUsage>, LlmErrorKind> {
    Ok(Some(ChatUsage { prompt_tokens: input, completion_tokens: output }))
}

#[test]
fn token_tracking_chat_emits_metrics() {
    let mut warnings = WarningRegistry::new();
    let record = tracker("test-provider", "test-model").track(
        &mut warnings,
        usage(100, 50),
        RateLookup::NoTable,
    );
    assert_eq!(record.input_tokens, 100, "input token count must be 100");
    assert_eq!(record.output_tokens, 50, "output token count must be 50");
    assert_eq!(record.status, "ok");
    assert_eq!(record.error_type, None);
}

fn make_err(kind: u8) -> LLMError {
    match kind {
        0 => LLMError::HttpError("http".into()),
        1 => LLMError::AuthError("auth".into()),
        2 => LLMError::InvalidRequest("inv".into()),
        3 => LLMError::ProviderError("prov".into()),
        4 => LLMError::ResponseFormatError {
            message: "fmt".into(),
            raw_response: "raw".into(),
        },
        5 => LLMError::Generic("gen".into()),
        6 => LLMError::JsonError("json".into()),
        7 => LLMError::ToolConfigError("tool".into()),
        8 => LLMError::NoToolSupport("nts".into()),
        9 => LLMError::GuardrailBlocked {
            phase: GuardrailPhase::Input,
            guard: "g".into(),
            rule_id: "r".into(),
            category: "c".into(),
            severity: "s".into(),
            message: "m".into(),
        },
        _ => LLMError::GuardrailExecutionFailed {
            guard: "g".into(),
            message: "m".into(),
        },
    }
}

#[test]
fn chat_error_emits_bounded_error_type() {
    let cases: &[(u8, &'static str)] = &[
        (0, "server_error"),  // HttpError
        (1, "client_error"),  // AuthError
        (2, "client_error"),  // InvalidRequest
        (3, "server_error"),  // ProviderError
        (4, "parse_error"),   // ResponseFormatError
        (5, "server_error"),  // Generic
        (6, "parse_error"),   // JsonError
        (7, "client_error"),  // ToolConfigError
        (8, "client_error"),  // NoToolSupport
        (9, "server_error"),  // GuardrailBlocked
        (10, "server_error"), // GuardrailExecutionFailed
    ];
    for &(kind_index, expected) in cases {
        let err = make_err(kind_index);
        let label = llm_error_type(&err);
        assert_eq!(
            label, expected,
            "llm_error_type({kind_index}) must map to '{expected}'; got '{label}'"
        );
        let mut warnings = WarningRegistry::new();
        let record = tracker("test-provider", "test-model").track_call(
            &mut warnings,
            Err(&err),
            RateLookup::Unlisted,
        );
        assert_eq!(record.status, "error");
        assert_eq!(record.error_type, Some(expected));
        assert_eq!((record.input_tokens, record.output_tokens), (0, 0));
        assert!(!record.warn_usage && !record.warn_rate);
        assert_eq!(record.priced_tokens, None);
    }
}

#[test]
fn every_kind_of_error_has_its_type() {
    for (kind, expected) in [
        (LlmErrorKind::Http, "server_error"),
        (LlmErrorKind::Auth, "client_error"),
        (LlmErrorKind::InvalidRequest, "client_error"),
        (LlmErrorKind::Provider, "server_error"),
        (LlmErrorKind::ResponseFormat, "parse_error"),
        (LlmErrorKind::Generic, "server_error"),
        (LlmErrorKind::Json, "parse_error"),
        (LlmErrorKind::ToolConfig, "client_error"),
        (LlmErrorKind::NoToolSupport, "client_error"),
        (LlmErrorKind::GuardrailBlocked, "server_error"),
        (LlmErrorKind::GuardrailExecutionFailed, "server_error"),
    ] {
        assert_eq!(error_type_label(kind), expected);
    }
}

#[test]
fn chat_unknown_provider_emits_zero_cost_with_warn() {
    let mut warnings = WarningRegistry::new();
    let chat = tracker("unregistered", "unknown");
    let record = chat.track(&mut warnings, usage(500, 500), RateLookup::Unlisted);
    assert_eq!(record.priced_tokens, None, "no cost for an unlisted model");
    assert!(record.warn_rate);
    let again = chat.track(&mut warnings, usage(500, 500), RateLookup::Unlisted);
    assert!(!again.warn_rate, "the warning is given once");
}

#[test]
fn token_tracking_chat_cost_correct() {
    let mut warnings = WarningRegistry::new();
    let record = tracker("openai", "gpt-4o-mini").track(
        &mut warnings,
        usage(200, 300),
        RateLookup::Listed,
    );
    let expected_usd: f64 = 500_f64 * 0.0006 / 1000.0;
    let actual = 0.0006 * (record.priced_tokens.unwrap() as f64) / 1000.0;
    let delta = (actual - expected_usd).abs();
    assert!(
        delta < 1e-9,
        "cost {actual:.9} USD differs from expected {expected_usd:.9} USD by {delta:.9}"
    );
}

#[test]
fn missing_usage_is_warned_about_once_per_model() {
    let mut warnings = WarningRegistry::new();
    let first = tracker("p", "m").track(&mut warnings, Ok(None), RateLookup::NoTable);
    assert!(first.warn_usage);
    assert_eq!((first.input_tokens, first.output_tokens), (0, 0));
    assert!(!tracker("p", "m").track(&mut warnings, Ok(None), RateLookup::NoTable).warn_usage);
    assert!(tracker("p", "n").track(&mut warnings, Ok(None), RateLookup::NoTable).warn_usage);
    assert!(tracker("q", "m").track(&mut warnings, Ok(None), RateLookup::NoTable).warn_usage);
    // The two warnings are independent.
    assert!(tracker("p", "m").track(&mut warnings, Ok(None), RateLookup::Unlisted).warn_rate);
}

#[test]
fn warning_registry_answers_true_once() {
    let mut warnings = WarningRegistry::new();
    assert!(warnings.first_usage_warning("p", "m"));
    assert!(!warnings.first_usage_warning("p", "m"));
    assert!(warnings.first_rate_warning("p", "m"));
    assert!(!warnings.first_rate_warning("p", "m"));
    // The pair counts, not the joined text.
    assert!(warnings.first_usage_warning("pm", ""));
    assert!(warnings.first_usage_warning("", "pm"));
}

#[test]
fn the_largest_usage_is_priced_without_overflow() {
    let mut warnings = WarningRegistry::new();
    let record = tracker("p", "m").track(
        &mut warnings,
        usage(u32::MAX, u32::MAX),
        RateLookup::Listed,
    );
    assert_eq!(record.priced_tokens, Some(2 * u64::from(u32::MAX)));
}

#[test]
fn labels_are_those_of_construction() {
    let chat = TokenTrackingChatProvider::new(9u8, "ollama".to_owned(), "llama3".to_owned());
    assert_eq!(chat.model_id(), "llama3");
    assert_eq!(chat.provider_id(), "ollama");
    assert_eq!(*chat.inner(), 9);
}
